//! The builtin registry and dispatcher: every builtin operation, each with
//! an exact contract, and `dispatch`, whose whole behaviour is the spec
//! function `step` over the session, filesystem and invocation models.
//! Work only an outside collaborator can do (package fetch, archive,
//! interactive secret entry) is returned as an `ExternalAction` value.
use vstd::prelude::*;

use crate::fsmodel::{
    lookup_fs, remove_fs, set_fs, lemma_remove_absent, FsModel, FsNode, FsNodeV,
};
use crate::outcome::{placeholder_result, placeholder_text, ShellError, STATUS_OK};
use crate::parse::{has_tok, CommandInvocation};
use crate::session::{SessionContext, SessV};
use crate::strutil::{
    cat_each, grep_render_spec, join_with, lines_of, split_ws, str_contains, str_eq, mark_pattern,
};

verus! {

/// Model of a request to an outside collaborator.
pub ghost enum ActV {
    Install(Seq<char>),
    Update(Seq<char>),
    Compress(Seq<char>, Seq<char>),
    Decompress(Seq<char>),
    PromptElevation,
}

/// A request the dispatcher hands to the caller for an outside
/// collaborator: fetch and install a package, update to a version,
/// compress or decompress an archive, or prompt for the elevation secret.
#[derive(Debug, PartialEq, Eq, Clone)]
pub enum ExternalAction {
    Install(String),
    Update(String),
    Compress(String, String),
    Decompress(String),
    PromptElevation,
}

impl View for ExternalAction {
    type V = ActV;

    open spec fn view(&self) -> ActV {
        match self {
            ExternalAction::Install(p) => ActV::Install(p@),
            ExternalAction::Update(v) => ActV::Update(v@),
            ExternalAction::Compress(f, t) => ActV::Compress(f@, t@),
            ExternalAction::Decompress(t) => ActV::Decompress(t@),
            ExternalAction::PromptElevation => ActV::PromptElevation,
        }
    }
}

/// The result of dispatching one invocation: the uniform status and text,
/// plus at most one outside-collaborator request.
pub struct CmdOut {
    pub code: usize,
    pub text: String,
    pub action: Option<ExternalAction>,
}

/// The `(status, text)` part of a dispatch result, as a model value.
pub open spec fn out_res_view(r: Result<CmdOut, ShellError>) -> Result<
    (usize, Seq<char>),
    ShellError,
> {
    match r {
        Ok(o) => Ok((o.code, o.text@)),
        Err(e) => Err(e),
    }
}

/// The collaborator request of a dispatch result, as a model value.
pub open spec fn out_act_view(r: Result<CmdOut, ShellError>) -> Option<ActV> {
    match r {
        Ok(o) => match o.action {
            Some(a) => Some(a@),
            None => None,
        },
        Err(_) => None,
    }
}

/// Everything one dispatch step yields: the next session and filesystem
/// state, the result, and at most one collaborator request.
pub ghost struct StepR {
    pub sess: SessV,
    pub fs: Seq<(Seq<char>, FsNodeV)>,
    pub res: Result<(usize, Seq<char>), ShellError>,
    pub action: Option<ActV>,
}

/// Argument `i`, or empty when the segment has fewer arguments.
pub open spec fn arg_at(args: Seq<Seq<char>>, i: int) -> Seq<char> {
    if 0 <= i < args.len() {
        args[i]
    } else {
        Seq::empty()
    }
}

/// A success step that changes nothing and requests nothing.
pub open spec fn step_ok(
    sess: SessV,
    fsv: Seq<(Seq<char>, FsNodeV)>,
    text: Seq<char>,
) -> StepR {
    StepR { sess, fs: fsv, res: Ok((STATUS_OK, text)), action: None }
}

/// A failure step: state is unchanged, the error is surfaced.
pub open spec fn step_err(
    sess: SessV,
    fsv: Seq<(Seq<char>, FsNodeV)>,
    e: ShellError,
) -> StepR {
    StepR { sess, fs: fsv, res: Err(e), action: None }
}

/// What `whoami` reports: the elevated identity when elevated, else the
/// real username.
pub open spec fn whoami_text(sess: SessV) -> Seq<char> {
    if sess.root {
        "root"@
    } else {
        sess.username
    }
}

/// The help text.
pub open spec fn help_text() -> Seq<char> {
    "Usage: <command> [options] [arg]\nCommands:\n    pwd     View current directory                         apt -i ..   Install package\n    ls      View all files in the current directory        history     View past Commands\n    cd      Change directory                               whoami  ||  apt -update version\n    rm      Delete directory or file                       rn          Rename directory or file\n    touch   Create a new file                              mkdir       Create a new directory\n    cat     View file only read                            mv          Move file's path\n    echo    Print its arguments                            tar -zxvf:  Compression\n    sudo    Elevate this session                           tar -xvf:   Decompression\n    exit    Exit this process\n"@
}

/// The success text of `touch` and `mkdir`.
pub open spec fn created_text(p: Seq<char>) -> Seq<char> {
    "Successfully created "@ + p
}

/// The success text of `cp`.
pub open spec fn copy_text(p: Seq<char>) -> Seq<char> {
    "Successfully to copy "@ + p
}

/// The success text of `cd`.
pub open spec fn cd_text(p: Seq<char>) -> Seq<char> {
    "Successfully changed directory to "@ + p + "."@
}

/// The names of every entry, each followed by spacing: what `ls` prints.
pub open spec fn ls_text(fsv: Seq<(Seq<char>, FsNodeV)>) -> Seq<char> {
    cat_each(Seq::new(fsv.len(), |i: int| fsv[i].0), "    "@)
}

/// `rn` and `mv`: the entry at `src`, if any, rebound to `dst`.
pub open spec fn rename_fs(
    fsv: Seq<(Seq<char>, FsNodeV)>,
    src: Seq<char>,
    dst: Seq<char>,
) -> Seq<(Seq<char>, FsNodeV)> {
    match lookup_fs(fsv, src) {
        None => fsv,
        Some(n) => set_fs(remove_fs(fsv, src), dst, n),
    }
}

/// What `grep` returns: file lines when the target names a file, else the
/// whitespace tokens of the target literal, matching items highlighted.
pub open spec fn grep_text(
    fsv: Seq<(Seq<char>, FsNodeV)>,
    pattern: Seq<char>,
    target: Seq<char>,
) -> Seq<char> {
    match lookup_fs(fsv, target) {
        Some(FsNodeV::File(c)) => grep_render_spec(lines_of(c), pattern),
        _ => grep_render_spec(split_ws(target), pattern),
    }
}

/// One dispatch step: the complete meaning of `dispatch(name, opts, args)`
/// on a given session and filesystem. Every builtin's effect, result text
/// and error is fixed here, for every input.
pub open spec fn step(
    sess: SessV,
    fsv: Seq<(Seq<char>, FsNodeV)>,
    name: Seq<char>,
    opts: Seq<Seq<char>>,
    args: Seq<Seq<char>>,
) -> StepR {
    let a0 = arg_at(args, 0);
    let a1 = arg_at(args, 1);
    if name == "whoami"@ {
        step_ok(sess, fsv, whoami_text(sess))
    } else if name == "help"@ {
        step_ok(sess, fsv, help_text())
    } else if name == "pwd"@ {
        step_ok(sess, fsv, sess.cwd)
    } else if name == "cd"@ {
        if lookup_fs(fsv, a0) == Some(FsNodeV::Dir) {
            StepR {
                sess: SessV { cwd: a0, ..sess },
                fs: fsv,
                res: Ok((STATUS_OK, cd_text(a0))),
                action: None,
            }
        } else {
            step_err(sess, fsv, ShellError::NotFound)
        }
    } else if name == "ls"@ || name == "ll"@ {
        step_ok(sess, fsv, ls_text(fsv))
    } else if name == "touch"@ {
        if a0.len() == 0 {
            step_ok(sess, fsv, placeholder_text())
        } else if lookup_fs(fsv, a0) is Some {
            step_err(sess, fsv, ShellError::AlreadyExists)
        } else {
            StepR {
                sess,
                fs: set_fs(fsv, a0, FsNodeV::File(Seq::empty())),
                res: Ok((STATUS_OK, created_text(a0))),
                action: None,
            }
        }
    } else if name == "mkdir"@ {
        if a0.len() == 0 {
            step_ok(sess, fsv, placeholder_text())
        } else if lookup_fs(fsv, a0) is Some {
            step_ok(sess, fsv, created_text(a0))
        } else {
            StepR {
                sess,
                fs: set_fs(fsv, a0, FsNodeV::Dir),
                res: Ok((STATUS_OK, created_text(a0))),
                action: None,
            }
        }
    } else if name == "rm"@ {
        if a0.len() == 0 {
            step_ok(sess, fsv, placeholder_text())
        } else {
            StepR { sess, fs: remove_fs(fsv, a0), res: Ok((STATUS_OK, Seq::empty())), action: None }
        }
    } else if name == "rn"@ || name == "mv"@ {
        if a0.len() == 0 {
            step_ok(sess, fsv, placeholder_text())
        } else if a1.len() == 0 {
            step_ok(sess, fsv, Seq::empty())
        } else {
            StepR {
                sess,
                fs: rename_fs(fsv, a0, a1),
                res: Ok((STATUS_OK, Seq::empty())),
                action: None,
            }
        }
    } else if name == "cat"@ {
        if a0.len() == 0 {
            step_ok(sess, fsv, placeholder_text())
        } else {
            match lookup_fs(fsv, a0) {
                Some(FsNodeV::File(c)) => step_ok(sess, fsv, c),
                Some(FsNodeV::Dir) => step_ok(sess, fsv, Seq::empty()),
                None => step_err(sess, fsv, ShellError::NotFound),
            }
        }
    } else if name == "cp"@ {
        if a0.len() == 0 || a1.len() == 0 {
            step_ok(sess, fsv, placeholder_text())
        } else {
            match lookup_fs(fsv, a0) {
                Some(FsNodeV::File(c)) => StepR {
                    sess,
                    fs: set_fs(fsv, a1, FsNodeV::File(c)),
                    res: Ok((STATUS_OK, copy_text(a1))),
                    action: None,
                },
                _ => step_err(sess, fsv, ShellError::NotFound),
            }
        }
    } else if name == "history"@ {
        step_ok(sess, fsv, cat_each(sess.history, "\n"@))
    } else if name == "grep"@ {
        if a1.len() == 0 {
            step_ok(sess, fsv, placeholder_text())
        } else {
            step_ok(sess, fsv, grep_text(fsv, a0, a1))
        }
    } else if name == "echo"@ {
        step_ok(sess, fsv, join_with(args, " "@))
    } else if name == "sudo"@ {
        StepR {
            sess,
            fs: fsv,
            res: Ok((STATUS_OK, "Sucessfully to change root"@)),
            action: Some(ActV::PromptElevation),
        }
    } else if name == "apt"@ {
        if has_tok(opts, "-i"@) {
            if a0.len() == 0 {
                step_ok(sess, fsv, placeholder_text())
            } else {
                StepR {
                    sess,
                    fs: fsv,
                    res: Ok((STATUS_OK, "Successfully download Package "@ + a0)),
                    action: Some(ActV::Install(a0)),
                }
            }
        } else if has_tok(opts, "-update"@) {
            if a0.len() == 0 {
                step_ok(sess, fsv, placeholder_text())
            } else {
                StepR {
                    sess,
                    fs: fsv,
                    res: Ok((STATUS_OK, Seq::empty())),
                    action: Some(ActV::Update(a0)),
                }
            }
        } else {
            step_err(sess, fsv, ShellError::UnsupportedCommand)
        }
    } else if name == "tar"@ {
        if has_tok(opts, "-zxvf"@) {
            if a0.len() == 0 || a1.len() == 0 {
                step_ok(sess, fsv, placeholder_text())
            } else {
                StepR {
                    sess,
                    fs: fsv,
                    res: Ok((STATUS_OK, "Successfully Compression"@)),
                    action: Some(ActV::Compress(a0, a1)),
                }
            }
        } else if has_tok(opts, "-xvf"@) {
            if a0.len() == 0 {
                step_ok(sess, fsv, placeholder_text())
            } else {
                StepR {
                    sess,
                    fs: fsv,
                    res: Ok((STATUS_OK, "Successfully Decompression"@)),
                    action: Some(ActV::Decompress(a0)),
                }
            }
        } else {
            step_err(sess, fsv, ShellError::UnsupportedCommand)
        }
    } else {
        step_err(sess, fsv, ShellError::UnsupportedCommand)
    }
}

/// The identity builtin: `root` when elevated, the username otherwise.
pub fn whoami(session: &SessionContext) -> (r: (usize, String))
    ensures
        r.0 == STATUS_OK,
        r.1@ == whoami_text(session@),
{
    if session.root {
        let mut t = String::new();
        t.append("root");
        (STATUS_OK, t)
    } else {
        (STATUS_OK, session.get_username())
    }
}

/// The usage text.
pub fn help() -> (r: String)
    ensures
        r@ == help_text(),
{
    let mut t = String::new();
    t.append("Usage: <command> [options] [arg]\nCommands:\n    pwd     View current directory                         apt -i ..   Install package\n    ls      View all files in the current directory        history     View past Commands\n    cd      Change directory                               whoami  ||  apt -update version\n    rm      Delete directory or file                       rn          Rename directory or file\n    touch   Create a new file                              mkdir       Create a new directory\n    cat     View file only read                            mv          Move file's path\n    echo    Print its arguments                            tar -zxvf:  Compression\n    sudo    Elevate this session                           tar -xvf:   Decompression\n    exit    Exit this process\n");
    t
}

/// The current working directory.
pub fn pwd(session: &SessionContext) -> (r: (usize, String))
    ensures
        r.0 == STATUS_OK,
        r.1@ == session@.cwd,
{
    let mut t = String::new();
    t.append(session.cwd.as_str());
    (STATUS_OK, t)
}

/// Change directory: the path must name a directory that exists now.
pub fn cd(path: &str, session: &mut SessionContext, fs: &FsModel) -> (r: Result<
    (usize, String),
    ShellError,
>)
    ensures
        lookup_fs(fs@, path@) == Some(FsNodeV::Dir) ==> {
            &&& final(session)@ == (SessV { cwd: path@, ..old(session)@ })
            &&& r is Ok
            &&& r->Ok_0.0 == STATUS_OK
            &&& r->Ok_0.1@ == cd_text(path@)
        },
        lookup_fs(fs@, path@) != Some(FsNodeV::Dir) ==> {
            &&& final(session)@ == old(session)@
            &&& r == Result::<(usize, String), ShellError>::Err(ShellError::NotFound)
        },
{
    match fs.probe(path) {
        Some(true) => {
            session.cwd = String::from_str(path);
            let t = String::from_str("Successfully changed directory to ").concat(path).concat(
                ".",
            );
            Ok((STATUS_OK, t))
        },
        _ => Err(ShellError::NotFound),
    }
}

/// List every entry of the filesystem, names in entry order.
pub fn ls(fs: &FsModel) -> (r: (usize, String))
    ensures
        r.0 == STATUS_OK,
        r.1@ == ls_text(fs@),
{
    let ghost names = Seq::new(fs@.len(), |i: int| fs@[i].0);
    let n = fs.entries.len();
    let mut out = String::new();
    let mut i: usize = 0;
    proof {
        assert(names.skip(0) =~= names);
    }
    while i < n
        invariant
            i <= n,
            n == fs.entries@.len(),
            names == Seq::new(fs@.len(), |k: int| fs@[k].0),
            ls_text(fs@) == out@ + cat_each(names.skip(i as int), "    "@),
        decreases n - i,
    {
        out.append(fs.entries[i].0.as_str());
        out.append("    ");
        proof {
            assert(names.skip(i as int)[0] == fs@[i as int].0);
            assert(names.skip(i as int).skip(1) =~= names.skip(i + 1));
        }
        i = i + 1;
    }
    proof {
        assert(names.skip(n as int) =~= Seq::<Seq<char>>::empty());
    }
    (STATUS_OK, out)
}

/// Create a new, empty file. An empty path is a benign no-op; an existing
/// entry is an error, exactly as creating a file anew fails.
pub fn touch(file: &str, fs: &mut FsModel) -> (r: Result<(usize, String), ShellError>)
    requires
        old(fs).wf(),
    ensures
        final(fs).wf(),
        file@.len() == 0 ==> {
            &&& final(fs)@ == old(fs)@
            &&& r is Ok
            &&& r->Ok_0.0 == STATUS_OK
            &&& r->Ok_0.1@ == placeholder_text()
        },
        file@.len() > 0 && lookup_fs(old(fs)@, file@) is Some ==> {
            &&& final(fs)@ == old(fs)@
            &&& r == Result::<(usize, String), ShellError>::Err(ShellError::AlreadyExists)
        },
        file@.len() > 0 && lookup_fs(old(fs)@, file@) is None ==> {
            &&& final(fs)@ == set_fs(old(fs)@, file@, FsNodeV::File(Seq::empty()))
            &&& r is Ok
            &&& r->Ok_0.0 == STATUS_OK
            &&& r->Ok_0.1@ == created_text(file@)
        },
{
    if file.unicode_len() == 0 {
        return Ok(placeholder_result());
    }
    match fs.probe(file) {
        Some(_) => Err(ShellError::AlreadyExists),
        None => {
            fs.set(file, FsNode::File(String::new()));
            let t = String::from_str("Successfully created ").concat(file);
            Ok((STATUS_OK, t))
        },
    }
}

/// Create a directory. An empty path is a benign no-op; an existing entry
/// is left alone and still reported as success, as the recursive builder does.
pub fn mkdir(dir: &str, fs: &mut FsModel) -> (r: Result<(usize, String), ShellError>)
    requires
        old(fs).wf(),
    ensures
        final(fs).wf(),
        dir@.len() == 0 ==> {
            &&& final(fs)@ == old(fs)@
            &&& r is Ok
            &&& r->Ok_0.0 == STATUS_OK
            &&& r->Ok_0.1@ == placeholder_text()
        },
        dir@.len() > 0 ==> {
            &&& final(fs)@ == (if lookup_fs(old(fs)@, dir@) is Some {
                old(fs)@
            } else {
                set_fs(old(fs)@, dir@, FsNodeV::Dir)
            })
            &&& r is Ok
            &&& r->Ok_0.0 == STATUS_OK
            &&& r->Ok_0.1@ == created_text(dir@)
        },
{
    if dir.unicode_len() == 0 {
        return Ok(placeholder_result());
    }
    match fs.probe(dir) {
        Some(_) => {},
        None => {
            fs.set(dir, FsNode::Dir);
        },
    }
    let t = String::from_str("Successfully created ").concat(dir);
    Ok((STATUS_OK, t))
}

/// Remove the entry at the path, whatever it currently is: the filesystem
/// is probed at call time, a directory is removed as a directory, a file
/// as a file, and a missing path is silently a no-op. An empty path is a
/// benign no-op with the placeholder text.
pub fn rm(file: &str, fs: &mut FsModel) -> (r: Result<(usize, String), ShellError>)
    requires
        old(fs).wf(),
    ensures
        final(fs).wf(),
        file@.len() == 0 ==> {
            &&& final(fs)@ == old(fs)@
            &&& r is Ok
            &&& r->Ok_0.0 == STATUS_OK
            &&& r->Ok_0.1@ == placeholder_text()
        },
        file@.len() > 0 ==> {
            &&& final(fs)@ == remove_fs(old(fs)@, file@)
            &&& r is Ok
            &&& r->Ok_0.0 == STATUS_OK
            &&& r->Ok_0.1@ == Seq::<char>::empty()
        },
{
    if file.unicode_len() == 0 {
        return Ok(placeholder_result());
    }
    match fs.probe(file) {
        Some(true) => {
            // the path names a directory now: remove the directory
            fs.remove(file);
        },
        Some(false) => {
            // the path names a file now: remove the file
            fs.remove(file);
        },
        None => {
            proof {
                lemma_remove_absent(fs@, file@);
            }
        },
    }
    Ok((STATUS_OK, String::new()))
}

/// Rename `source` to `now`. An empty source is a benign no-op; a missing
/// source or empty target changes nothing, silently, as the ignored
/// rename error did.
pub fn rename(source: &str, now: &str, fs: &mut FsModel) -> (r: Result<
    (usize, String),
    ShellError,
>)
    requires
        old(fs).wf(),
    ensures
        final(fs).wf(),
        source@.len() == 0 ==> {
            &&& final(fs)@ == old(fs)@
            &&& r is Ok
            &&& r->Ok_0.0 == STATUS_OK
            &&& r->Ok_0.1@ == placeholder_text()
        },
        source@.len() > 0 && now@.len() == 0 ==> {
            &&& final(fs)@ == old(fs)@
            &&& r is Ok
            &&& r->Ok_0.0 == STATUS_OK
            &&& r->Ok_0.1@ == Seq::<char>::empty()
        },
        source@.len() > 0 && now@.len() > 0 ==> {
            &&& final(fs)@ == rename_fs(old(fs)@, source@, now@)
            &&& r is Ok
            &&& r->Ok_0.0 == STATUS_OK
            &&& r->Ok_0.1@ == Seq::<char>::empty()
        },
{
    if source.unicode_len() == 0 {
        return Ok(placeholder_result());
    }
    if now.unicode_len() == 0 {
        return Ok((STATUS_OK, String::new()));
    }
    match fs.take(source) {
        Some(node) => {
            fs.set(now, node);
        },
        None => {
            proof {
                lemma_remove_absent(old(fs)@, source@);
            }
        },
    }
    Ok((STATUS_OK, String::new()))
}

/// Move a file: one explicit semantic, the same rebinding as `rename`.
pub fn move_file(source: &str, now: &str, fs: &mut FsModel) -> (r: Result<
    (usize, String),
    ShellError,
>)
    requires
        old(fs).wf(),
    ensures
        final(fs).wf(),
        source@.len() == 0 ==> {
            &&& final(fs)@ == old(fs)@
            &&& r is Ok
            &&& r->Ok_0.0 == STATUS_OK
            &&& r->Ok_0.1@ == placeholder_text()
        },
        source@.len() > 0 && now@.len() == 0 ==> {
            &&& final(fs)@ == old(fs)@
            &&& r is Ok
            &&& r->Ok_0.0 == STATUS_OK
            &&& r->Ok_0.1@ == Seq::<char>::empty()
        },
        source@.len() > 0 && now@.len() > 0 ==> {
            &&& final(fs)@ == rename_fs(old(fs)@, source@, now@)
            &&& r is Ok
            &&& r->Ok_0.0 == STATUS_OK
            &&& r->Ok_0.1@ == Seq::<char>::empty()
        },
{
    rename(source, now, fs)
}

/// Read a file. An empty path is a benign no-op; reading a directory
/// yields empty text, as the ignored read error left the buffer empty;
/// a missing path is the one read error surfaced.
pub fn cat(file: &str, fs: &FsModel) -> (r: Result<(usize, String), ShellError>)
    ensures
        file@.len() == 0 ==> {
            &&& r is Ok
            &&& r->Ok_0.0 == STATUS_OK
            &&& r->Ok_0.1@ == placeholder_text()
        },
        file@.len() > 0 ==> match lookup_fs(fs@, file@) {
            Some(FsNodeV::File(c)) => r is Ok && r->Ok_0.0 == STATUS_OK && r->Ok_0.1@ == c,
            Some(FsNodeV::Dir) => r is Ok && r->Ok_0.0 == STATUS_OK && r->Ok_0.1@ == Seq::<char>::empty(),
            None => r == Result::<(usize, String), ShellError>::Err(ShellError::NotFound),
        },
{
    if file.unicode_len() == 0 {
        return Ok(placeholder_result());
    }
    match fs.find(file) {
        Some(FsNode::File(c)) => Ok((STATUS_OK, String::from_str(c.as_str()))),
        Some(FsNode::Dir) => Ok((STATUS_OK, String::new())),
        None => Err(ShellError::NotFound),
    }
}

/// Copy one file's contents to a new path, creating or truncating the
/// target. An empty source or target is a benign no-op; a source that is
/// not an existing file is the read error surfaced.
pub fn cp(source: &str, to: &str, fs: &mut FsModel) -> (r: Result<(usize, String), ShellError>)
    requires
        old(fs).wf(),
    ensures
        final(fs).wf(),
        source@.len() == 0 || to@.len() == 0 ==> {
            &&& final(fs)@ == old(fs)@
            &&& r is Ok
            &&& r->Ok_0.0 == STATUS_OK
            &&& r->Ok_0.1@ == placeholder_text()
        },
        source@.len() > 0 && to@.len() > 0 ==> match lookup_fs(old(fs)@, source@) {
            Some(FsNodeV::File(c)) => {
                &&& final(fs)@ == set_fs(old(fs)@, to@, FsNodeV::File(c))
                &&& r is Ok
                &&& r->Ok_0.0 == STATUS_OK
                &&& r->Ok_0.1@ == copy_text(to@)
            },
            _ => {
                &&& final(fs)@ == old(fs)@
                &&& r == Result::<(usize, String), ShellError>::Err(ShellError::NotFound)
            },
        },
{
    if source.unicode_len() == 0 || to.unicode_len() == 0 {
        return Ok(placeholder_result());
    }
    let contents = match fs.find(source) {
        Some(FsNode::File(c)) => String::from_str(c.as_str()),
        _ => {
            return Err(ShellError::NotFound);
        },
    };
    fs.set(to, FsNode::File(contents));
    let t = String::from_str("Successfully to copy ").concat(to);
    Ok((STATUS_OK, t))
}

/// Render the history log, each raw line followed by a newline.
pub fn history(session: &SessionContext) -> (r: (usize, String))
    ensures
        r.0 == STATUS_OK,
        r.1@ == cat_each(session@.history, "\n"@),
{
    let ghost entries = session@.history;
    let n = session.history.len();
    let mut out = String::new();
    let mut i: usize = 0;
    proof {
        assert(entries.skip(0) =~= entries);
    }
    while i < n
        invariant
            i <= n,
            n == session.history@.len(),
            entries == session@.history,
            cat_each(entries, "\n"@) == out@ + cat_each(entries.skip(i as int), "\n"@),
        decreases n - i,
    {
        out.append(session.history[i].as_str());
        out.append("\n");
        proof {
            assert(entries.skip(i as int)[0] == entries[i as int]);
            assert(entries.skip(i as int).skip(1) =~= entries.skip(i + 1));
        }
        i = i + 1;
    }
    proof {
        assert(entries.skip(n as int) =~= Seq::<Seq<char>>::empty());
    }
    (STATUS_OK, out)
}

/// Highlight every item that holds the pattern, one matching item per line.
fn render_matches(items: &Vec<String>, pattern: &str) -> (r: String)
    ensures
        r@ == grep_render_spec(items.deep_view(), pattern@),
{
    let ghost iv = items.deep_view();
    let n = items.len();
    let mut out = String::new();
    let mut i: usize = 0;
    proof {
        assert(iv.skip(0) =~= iv);
    }
    while i < n
        invariant
            i <= n,
            n == items@.len(),
            iv == items.deep_view(),
            grep_render_spec(iv, pattern@) == out@ + grep_render_spec(iv.skip(i as int), pattern@),
        decreases n - i,
    {
        proof {
            assert(iv.skip(i as int)[0] == iv[i as int]);
            assert(iv.skip(i as int).skip(1) =~= iv.skip(i + 1));
        }
        if str_contains(items[i].as_str(), pattern) {
            let marked = mark_pattern(items[i].as_str(), pattern);
            out.append(marked.as_str());
            out.append("\n");
        }
        i = i + 1;
    }
    proof {
        assert(iv.skip(n as int) =~= Seq::<Seq<char>>::empty());
    }
    out
}

/// The search builtin. If the target names an existing file, its lines are
/// searched; otherwise the target itself is searched as a literal, token
/// by token. Matches are highlighted; no match yields empty text, never
/// an error. An empty target is a benign no-op.
pub fn grep(pattern: &str, target: &str, fs: &FsModel) -> (r: (usize, String))
    ensures
        r.0 == STATUS_OK,
        target@.len() == 0 ==> r.1@ == placeholder_text(),
        target@.len() > 0 ==> r.1@ == grep_text(fs@, pattern@, target@),
{
    if target.unicode_len() == 0 {
        return placeholder_result();
    }
    match fs.find(target) {
        Some(FsNode::File(c)) => {
            let lines = crate::strutil::split_lines(c.as_str());
            (STATUS_OK, render_matches(&lines, pattern))
        },
        _ => {
            let toks = crate::strutil::tokenize(target);
            (STATUS_OK, render_matches(&toks, pattern))
        },
    }
}

/// Decide the `apt -update` report from the collaborator's outcome:
/// either the update ran, or the running version was already the latest.
pub fn update_response(version: &str, updated: bool) -> (r: (usize, String))
    ensures
        r.0 == STATUS_OK,
        updated ==> r.1@ == "Successfully Update version "@ + version@,
        !updated ==> r.1@ == "The current version is the latest one"@,
{
    if updated {
        (STATUS_OK, String::from_str("Successfully Update version ").concat(version))
    } else {
        let mut t = String::new();
        t.append("The current version is the latest one");
        (STATUS_OK, t)
    }
}

/// Wrap a value as a success result.
pub fn echo_print<T>(output: T) -> (r: (usize, T))
    ensures
        r.0 == STATUS_OK,
        r.1 == output,
{
    (STATUS_OK, output)
}

/// Argument `i` of the invocation, or an empty string when missing.
fn arg_or_empty(args: &Vec<String>, i: usize) -> (r: String)
    ensures
        r@ == arg_at(args.deep_view(), i as int),
{
    if i < args.len() {
        args[i].clone()
    } else {
        String::new()
    }
}

/// Dispatch one parsed invocation against the registry. The entire
/// behaviour — next session state, next filesystem state, result and
/// collaborator request — equals the spec function `step` on the models.
/// An unknown name is rejected with `UnsupportedCommand`.
pub fn dispatch(inv: &CommandInvocation, session: &mut SessionContext, fs: &mut FsModel) -> (r:
    Result<CmdOut, ShellError>)
    requires
        old(fs).wf(),
    ensures
        final(fs).wf(),
        final(session)@ == step(
            old(session)@,
            old(fs)@,
            inv.name@,
            inv.options.deep_view(),
            inv.args.deep_view(),
        ).sess,
        final(fs)@ == step(
            old(session)@,
            old(fs)@,
            inv.name@,
            inv.options.deep_view(),
            inv.args.deep_view(),
        ).fs,
        out_res_view(r) == step(
            old(session)@,
            old(fs)@,
            inv.name@,
            inv.options.deep_view(),
            inv.args.deep_view(),
        ).res,
        out_act_view(r) == step(
            old(session)@,
            old(fs)@,
            inv.name@,
            inv.options.deep_view(),
            inv.args.deep_view(),
        ).action,
{
    let name = inv.name.as_str();
    let a0 = arg_or_empty(&inv.args, 0);
    let a1 = arg_or_empty(&inv.args, 1);
    if str_eq(name, "whoami") {
        let out = whoami(session);
        Ok(CmdOut { code: out.0, text: out.1, action: None })
    } else if str_eq(name, "help") {
        Ok(CmdOut { code: STATUS_OK, text: help(), action: None })
    } else if str_eq(name, "pwd") {
        let out = pwd(session);
        Ok(CmdOut { code: out.0, text: out.1, action: None })
    } else if str_eq(name, "cd") {
        match cd(a0.as_str(), session, fs) {
            Ok(out) => Ok(CmdOut { code: out.0, text: out.1, action: None }),
            Err(e) => Err(e),
        }
    } else if str_eq(name, "ls") || str_eq(name, "ll") {
        let out = ls(fs);
        Ok(CmdOut { code: out.0, text: out.1, action: None })
    } else if str_eq(name, "touch") {
        match touch(a0.as_str(), fs) {
            Ok(out) => Ok(CmdOut { code: out.0, text: out.1, action: None }),
            Err(e) => Err(e),
        }
    } else if str_eq(name, "mkdir") {
        match mkdir(a0.as_str(), fs) {
            Ok(out) => Ok(CmdOut { code: out.0, text: out.1, action: None }),
            Err(e) => Err(e),
        }
    } else if str_eq(name, "rm") {
        match rm(a0.as_str(), fs) {
            Ok(out) => Ok(CmdOut { code: out.0, text: out.1, action: None }),
            Err(e) => Err(e),
        }
    } else if str_eq(name, "rn") || str_eq(name, "mv") {
        match rename(a0.as_str(), a1.as_str(), fs) {
            Ok(out) => Ok(CmdOut { code: out.0, text: out.1, action: None }),
            Err(e) => Err(e),
        }
    } else if str_eq(name, "cat") {
        match cat(a0.as_str(), fs) {
            Ok(out) => Ok(CmdOut { code: out.0, text: out.1, action: None }),
            Err(e) => Err(e),
        }
    } else if str_eq(name, "cp") {
        match cp(a0.as_str(), a1.as_str(), fs) {
            Ok(out) => Ok(CmdOut { code: out.0, text: out.1, action: None }),
            Err(e) => Err(e),
        }
    } else if str_eq(name, "history") {
        let out = history(session);
        Ok(CmdOut { code: out.0, text: out.1, action: None })
    } else if str_eq(name, "grep") {
        if a1.unicode_len() == 0 {
            let out = placeholder_result();
            Ok(CmdOut { code: out.0, text: out.1, action: None })
        } else {
            let out = grep(a0.as_str(), a1.as_str(), fs);
            Ok(CmdOut { code: out.0, text: out.1, action: None })
        }
    } else if str_eq(name, "echo") {
        let text = crate::strutil::join_strings(&inv.args, " ");
        Ok(CmdOut { code: STATUS_OK, text, action: None })
    } else if str_eq(name, "sudo") {
        let mut t = String::new();
        t.append("Sucessfully to change root");
        Ok(CmdOut { code: STATUS_OK, text: t, action: Some(ExternalAction::PromptElevation) })
    } else if str_eq(name, "apt") {
        if crate::parse::contains_tok(&inv.options, "-i") {
            if a0.unicode_len() == 0 {
                let out = placeholder_result();
                Ok(CmdOut { code: out.0, text: out.1, action: None })
            } else {
                let text = String::from_str("Successfully download Package ").concat(a0.as_str());
                Ok(CmdOut {
                    code: STATUS_OK,
                    text,
                    action: Some(ExternalAction::Install(a0)),
                })
            }
        } else if crate::parse::contains_tok(&inv.options, "-update") {
            if a0.unicode_len() == 0 {
                let out = placeholder_result();
                Ok(CmdOut { code: out.0, text: out.1, action: None })
            } else {
                Ok(CmdOut {
                    code: STATUS_OK,
                    text: String::new(),
                    action: Some(ExternalAction::Update(a0)),
                })
            }
        } else {
            Err(ShellError::UnsupportedCommand)
        }
    } else if str_eq(name, "tar") {
        if crate::parse::contains_tok(&inv.options, "-zxvf") {
            if a0.unicode_len() == 0 || a1.unicode_len() == 0 {
                let out = placeholder_result();
                Ok(CmdOut { code: out.0, text: out.1, action: None })
            } else {
                let mut t = String::new();
                t.append("Successfully Compression");
                Ok(CmdOut {
                    code: STATUS_OK,
                    text: t,
                    action: Some(ExternalAction::Compress(a0, a1)),
                })
            }
        } else if crate::parse::contains_tok(&inv.options, "-xvf") {
            if a0.unicode_len() == 0 {
                let out = placeholder_result();
                Ok(CmdOut { code: out.0, text: out.1, action: None })
            } else {
                let mut t = String::new();
                t.append("Successfully Decompression");
                Ok(CmdOut {
                    code: STATUS_OK,
                    text: t,
                    action: Some(ExternalAction::Decompress(a0)),
                })
            }
        } else {
            Err(ShellError::UnsupportedCommand)
        }
    } else {
        Err(ShellError::UnsupportedCommand)
    }
}

/// Route a directory-taking command: `mkdir`, `rm` or `cd` on `dir`;
/// anything else is rejected.
pub fn turn_dir(command: String, dir: String, session: &mut SessionContext, fs: &mut FsModel)
    -> (r: Result<(usize, String), ShellError>)
    requires
        old(fs).wf(),
    ensures
        final(fs).wf(),
        command@ == "mkdir"@ || command@ == "rm"@ || command@ == "cd"@ ==> {
            let st = step(old(session)@, old(fs)@, command@, Seq::empty(), seq![dir@]);
            &&& final(session)@ == st.sess
            &&& final(fs)@ == st.fs
            &&& (match r {
                Ok(out) => st.res == Ok::<(usize, Seq<char>), ShellError>((out.0, out.1@)),
                Err(e) => st.res == Err::<(usize, Seq<char>), ShellError>(e),
            })
        },
        !(command@ == "mkdir"@ || command@ == "rm"@ || command@ == "cd"@) ==> {
            &&& final(session)@ == old(session)@
            &&& final(fs)@ == old(fs)@
            &&& r == Result::<(usize, String), ShellError>::Err(ShellError::UnsupportedCommand)
        },
{
    proof {
        lemma_routed_names_distinct();
    }
    let c = command.as_str();
    if str_eq(c, "mkdir") {
        mkdir(dir.as_str(), fs)
    } else if str_eq(c, "rm") {
        rm(dir.as_str(), fs)
    } else if str_eq(c, "cd") {
        cd(dir.as_str(), session, fs)
    } else {
        Err(ShellError::UnsupportedCommand)
    }
}

/// Route a file-taking command: `touch`, `cat` or `rm` on `file`;
/// anything else is rejected.
pub fn turn_file(command: String, file: String, fs: &mut FsModel) -> (r: Result<
    (usize, String),
    ShellError,
>)
    requires
        old(fs).wf(),
    ensures
        final(fs).wf(),
        command@ == "touch"@ || command@ == "cat"@ || command@ == "rm"@ ==> {
            let st = step(empty_sess(), old(fs)@, command@, Seq::empty(), seq![file@]);
            &&& final(fs)@ == st.fs
            &&& (match r {
                Ok(out) => st.res == Ok::<(usize, Seq<char>), ShellError>((out.0, out.1@)),
                Err(e) => st.res == Err::<(usize, Seq<char>), ShellError>(e),
            })
        },
        !(command@ == "touch"@ || command@ == "cat"@ || command@ == "rm"@) ==> {
            &&& final(fs)@ == old(fs)@
            &&& r == Result::<(usize, String), ShellError>::Err(ShellError::UnsupportedCommand)
        },
{
    proof {
        lemma_routed_names_distinct();
    }
    let c = command.as_str();
    if str_eq(c, "touch") {
        match touch(file.as_str(), fs) {
            Ok(out) => Ok(out),
            Err(e) => Err(e),
        }
    } else if str_eq(c, "cat") {
        cat(file.as_str(), fs)
    } else if str_eq(c, "rm") {
        rm(file.as_str(), fs)
    } else {
        Err(ShellError::UnsupportedCommand)
    }
}

/// A blank session model: `turn_file` routes only commands whose effect
/// and result do not depend on the session, so any session model serves.
pub open spec fn empty_sess() -> SessV {
    SessV {
        username: Seq::empty(),
        root: false,
        secret: Seq::empty(),
        cwd: Seq::empty(),
        history: Seq::empty(),
    }
}

/// The routed command names are pairwise distinct from the registry names
/// that precede them in `step`'s match order.
#[verifier::rlimit(50)]
proof fn lemma_routed_names_distinct()
    ensures
        "mkdir"@ != "whoami"@ && "mkdir"@ != "help"@ && "mkdir"@ != "pwd"@ && "mkdir"@ != "cd"@
            && "mkdir"@ != "ls"@ && "mkdir"@ != "ll"@ && "mkdir"@ != "touch"@,
        "rm"@ != "whoami"@ && "rm"@ != "help"@ && "rm"@ != "pwd"@ && "rm"@ != "cd"@ && "rm"@
            != "ls"@ && "rm"@ != "ll"@ && "rm"@ != "touch"@ && "rm"@ != "mkdir"@,
        "cd"@ != "whoami"@ && "cd"@ != "help"@ && "cd"@ != "pwd"@,
        "touch"@ != "whoami"@ && "touch"@ != "help"@ && "touch"@ != "pwd"@ && "touch"@ != "cd"@
            && "touch"@ != "ls"@ && "touch"@ != "ll"@,
        "cat"@ != "whoami"@ && "cat"@ != "help"@ && "cat"@ != "pwd"@ && "cat"@ != "cd"@ && "cat"@
            != "ls"@ && "cat"@ != "ll"@ && "cat"@ != "touch"@ && "cat"@ != "mkdir"@ && "cat"@
            != "rm"@ && "cat"@ != "rn"@ && "cat"@ != "mv"@,
{
    broadcast use vstd::string::group_string_axioms;

    reveal_strlit("mkdir");
    reveal_strlit("whoami");
    reveal_strlit("help");
    reveal_strlit("pwd");
    reveal_strlit("cd");
    reveal_strlit("ls");
    reveal_strlit("ll");
    reveal_strlit("touch");
    reveal_strlit("rm");
    reveal_strlit("rn");
    reveal_strlit("mv");
    reveal_strlit("cat");
    assert(("whoami"@).len() == 6);
    assert(("help"@).len() == 4);
    assert(("pwd"@).len() == 3);
    assert(("cd"@).len() == 2);
    assert(("ls"@).len() == 2);
    assert(("ll"@).len() == 2);
    assert(("touch"@).len() == 5);
    assert(("mkdir"@).len() == 5);
    assert(("rm"@).len() == 2);
    assert(("rn"@).len() == 2);
    assert(("mv"@).len() == 2);
    assert(("cat"@).len() == 3);
    assert(("mkdir"@)[0] == 'm' && ("touch"@)[0] == 't');
    assert(("rm"@)[0] == 'r' && ("cd"@)[0] == 'c' && ("ls"@)[0] == 'l' && ("ll"@)[0] == 'l');
    assert(("rn"@)[1] == 'n' && ("mv"@)[0] == 'm' && ("rm"@)[1] == 'm');
    assert(("cat"@)[0] == 'c' && ("pwd"@)[0] == 'p');
}

} // verus!
