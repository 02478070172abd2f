//! Toy process and thread control blocks: they only allocate identifiers
//! and attach priority metadata. There is no scheduler, preemption or
//! dispatch logic here.
use vstd::prelude::*;

verus! {

/// Priority metadata a command's thread carries.
#[derive(Clone, Copy, PartialEq, Eq, Structural, Debug)]
pub enum CommandPriority {
    High,
    Normal,
    Low,
}

/// One thread: an identifier, the command name it runs, its priority.
pub struct Thread {
    pub tid: usize,
    pub name: String,
    pub priority: CommandPriority,
}

impl Thread {
    pub fn new(tid: usize, name: String, priority: CommandPriority) -> (r: Self)
        ensures
            r.tid == tid,
            r.name@ == name@,
            r.priority == priority,
    {
        Thread { tid, name, priority }
    }
}

/// The threads attached to one process, in attachment order.
pub struct ThreadControlBlock {
    pub threads: Vec<Thread>,
}

impl ThreadControlBlock {
    pub fn new() -> (r: Self)
        ensures
            r.threads@ == Seq::<Thread>::empty(),
    {
        let r = ThreadControlBlock { threads: Vec::new() };
        proof {
            assert(r.threads@ =~= Seq::<Thread>::empty());
        }
        r
    }

    pub fn add_thread(&mut self, thread: Thread)
        ensures
            final(self).threads@ == old(self).threads@.push(thread),
    {
        self.threads.push(thread);
    }
}

/// One process: an identifier, a name, and its thread control block.
pub struct Process {
    pub pid: usize,
    pub name: String,
    pub tcb: ThreadControlBlock,
}

impl Process {
    pub fn new(pid: usize, name: &str, tcb: ThreadControlBlock) -> (r: Self)
        ensures
            r.pid == pid,
            r.name@ == name@,
            r.tcb == tcb,
    {
        Process { pid, name: String::from_str(name), tcb }
    }
}

/// The processes the shell tracks, in creation order.
pub struct ProcessManager {
    pub processes: Vec<Process>,
}

impl ProcessManager {
    pub fn new() -> (r: Self)
        ensures
            r.processes@ == Seq::<Process>::empty(),
    {
        let r = ProcessManager { processes: Vec::new() };
        proof {
            assert(r.processes@ =~= Seq::<Process>::empty());
        }
        r
    }

    pub fn add_process(&mut self, process: Process)
        ensures
            final(self).processes@ == old(self).processes@.push(process),
    {
        self.processes.push(process);
    }
}

/// Wrap one command in a fresh thread control block holding exactly that
/// one thread.
pub fn add_command_to_thread(tid: usize, name: String, priority: CommandPriority) -> (r:
    ThreadControlBlock)
    ensures
        r.threads@.len() == 1,
        r.threads@[0].tid == tid,
        r.threads@[0].name@ == name@,
        r.threads@[0].priority == priority,
{
    let thread = Thread::new(tid, name, priority);
    let mut tcb = ThreadControlBlock::new();
    tcb.add_thread(thread);
    tcb
}

/// Wrap one thread control block in a fresh process manager holding
/// exactly that one process.
pub fn add_thread_to_process(pid: usize, name: String, tcb: ThreadControlBlock) -> (r:
    ProcessManager)
    ensures
        r.processes@.len() == 1,
        r.processes@[0].pid == pid,
        r.processes@[0].name@ == name@,
        r.processes@[0].tcb == tcb,
{
    let process = Process::new(pid, name.as_str(), tcb);
    let mut pcb = ProcessManager::new();
    pcb.add_process(process);
    pcb
}

} // verus!
