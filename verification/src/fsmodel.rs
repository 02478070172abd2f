//! The filesystem capability surface the builtins consume, modelled as
//! in-memory data: an association list from path to node, with unique
//! paths. Every mutation is specified exactly over that list.
use vstd::prelude::*;

use crate::strutil::str_eq;

verus! {

/// Mathematical model of one filesystem node.
pub ghost enum FsNodeV {
    Dir,
    File(Seq<char>),
}

/// One filesystem node: a directory, or a file with its contents.
pub enum FsNode {
    Dir,
    File(String),
}

impl View for FsNode {
    type V = FsNodeV;

    open spec fn view(&self) -> FsNodeV {
        match self {
            FsNode::Dir => FsNodeV::Dir,
            FsNode::File(c) => FsNodeV::File(c@),
        }
    }
}

/// The node found at `p`, scanning entries front to back.
pub open spec fn lookup_fs(fsv: Seq<(Seq<char>, FsNodeV)>, p: Seq<char>) -> Option<FsNodeV>
    decreases fsv.len(),
{
    if fsv.len() == 0 {
        None
    } else if fsv[0].0 == p {
        Some(fsv[0].1)
    } else {
        lookup_fs(fsv.skip(1), p)
    }
}

/// `fsv` with the entry at `p` removed (no change if `p` is absent).
pub open spec fn remove_fs(
    fsv: Seq<(Seq<char>, FsNodeV)>,
    p: Seq<char>,
) -> Seq<(Seq<char>, FsNodeV)>
    decreases fsv.len(),
{
    if fsv.len() == 0 {
        fsv
    } else if fsv[0].0 == p {
        fsv.skip(1)
    } else {
        seq![fsv[0]] + remove_fs(fsv.skip(1), p)
    }
}

/// `fsv` with `p` bound to `n`: any old entry at `p` is removed and the
/// new binding appended at the end.
pub open spec fn set_fs(
    fsv: Seq<(Seq<char>, FsNodeV)>,
    p: Seq<char>,
    n: FsNodeV,
) -> Seq<(Seq<char>, FsNodeV)> {
    remove_fs(fsv, p).push((p, n))
}

/// Paths are pairwise distinct.
pub open spec fn fs_wf(fsv: Seq<(Seq<char>, FsNodeV)>) -> bool {
    forall|i: int, j: int| 0 <= i < j < fsv.len() ==> (#[trigger] fsv[i]).0 != (#[trigger] fsv[j]).0
}

pub proof fn lemma_lookup_remove(fsv: Seq<(Seq<char>, FsNodeV)>, p: Seq<char>, q: Seq<char>)
    requires
        fs_wf(fsv),
    ensures
        q == p ==> lookup_fs(remove_fs(fsv, p), q) is None,
        q != p ==> lookup_fs(remove_fs(fsv, p), q) == lookup_fs(fsv, q),
    decreases fsv.len(),
{
    if fsv.len() == 0 {
    } else if fsv[0].0 == p {
        assert(fs_wf(fsv.skip(1)));
        if q == p {
            lemma_lookup_absent_of_wf(fsv, p);
        }
    } else {
        assert(fs_wf(fsv.skip(1)));
        lemma_lookup_remove(fsv.skip(1), p, q);
        let rest = seq![fsv[0]] + remove_fs(fsv.skip(1), p);
        assert(rest[0] == fsv[0]);
        assert(rest.skip(1) =~= remove_fs(fsv.skip(1), p));
    }
}

/// In a well-formed list, the tail holds no second binding of the head's path.
proof fn lemma_lookup_absent_of_wf(fsv: Seq<(Seq<char>, FsNodeV)>, p: Seq<char>)
    requires
        fs_wf(fsv),
        fsv.len() > 0,
        fsv[0].0 == p,
    ensures
        lookup_fs(fsv.skip(1), p) is None,
    decreases fsv.len(),
{
    lemma_lookup_none_when_all_differ(fsv.skip(1), p);
}

proof fn lemma_lookup_none_when_all_differ(fsv: Seq<(Seq<char>, FsNodeV)>, p: Seq<char>)
    requires
        forall|i: int| 0 <= i < fsv.len() ==> (#[trigger] fsv[i]).0 != p,
    ensures
        lookup_fs(fsv, p) is None,
    decreases fsv.len(),
{
    if fsv.len() > 0 {
        lemma_lookup_none_when_all_differ(fsv.skip(1), p);
    }
}

pub proof fn lemma_remove_wf(fsv: Seq<(Seq<char>, FsNodeV)>, p: Seq<char>)
    requires
        fs_wf(fsv),
    ensures
        fs_wf(remove_fs(fsv, p)),
        forall|i: int| 0 <= i < remove_fs(fsv, p).len()
            ==> exists|j: int| 0 <= j < fsv.len() && fsv[j] == #[trigger] remove_fs(fsv, p)[i],
    decreases fsv.len(),
{
    if fsv.len() == 0 {
    } else if fsv[0].0 == p {
        assert(fs_wf(fsv.skip(1)));
        assert forall|i: int| 0 <= i < remove_fs(fsv, p).len()
            implies exists|j: int| 0 <= j < fsv.len() && fsv[j] == #[trigger] remove_fs(fsv, p)[i] by {
            assert(fsv[i + 1] == remove_fs(fsv, p)[i]);
        }
    } else {
        assert(fs_wf(fsv.skip(1)));
        lemma_remove_wf(fsv.skip(1), p);
        let rest = seq![fsv[0]] + remove_fs(fsv.skip(1), p);
        assert(rest.skip(1) =~= remove_fs(fsv.skip(1), p));
        assert forall|i: int| 0 <= i < rest.len()
            implies exists|j: int| 0 <= j < fsv.len() && fsv[j] == #[trigger] rest[i] by {
            if i == 0 {
                assert(fsv[0] == rest[0]);
            } else {
                let k = choose|k: int| 0 <= k < fsv.skip(1).len()
                    && fsv.skip(1)[k] == remove_fs(fsv.skip(1), p)[i - 1];
                assert(fsv[k + 1] == rest[i]);
            }
        }
        assert forall|i: int, j: int| 0 <= i < j < rest.len()
            implies (#[trigger] rest[i]).0 != (#[trigger] rest[j]).0 by {
            if i == 0 {
                let k = choose|k: int| 0 <= k < fsv.skip(1).len()
                    && fsv.skip(1)[k] == remove_fs(fsv.skip(1), p)[j - 1];
                assert(fsv[k + 1] == rest[j]);
            }
        }
    }
}

pub proof fn lemma_set_wf(fsv: Seq<(Seq<char>, FsNodeV)>, p: Seq<char>, n: FsNodeV)
    requires
        fs_wf(fsv),
    ensures
        fs_wf(set_fs(fsv, p, n)),
        lookup_fs(set_fs(fsv, p, n), p) == Some(n),
        forall|q: Seq<char>| q != p ==> #[trigger] lookup_fs(set_fs(fsv, p, n), q)
            == lookup_fs(fsv, q),
{
    lemma_remove_wf(fsv, p);
    let r = remove_fs(fsv, p);
    let s = set_fs(fsv, p, n);
    assert forall|i: int, j: int| 0 <= i < j < s.len()
        implies (#[trigger] s[i]).0 != (#[trigger] s[j]).0 by {
        if j == s.len() - 1 {
            lemma_lookup_remove(fsv, p, p);
            lemma_lookup_index_some(r, r[i].0, i);
        }
    }
    lemma_lookup_remove(fsv, p, p);
    lemma_lookup_push(r, p, n, p);
    assert forall|q: Seq<char>| q != p
        implies #[trigger] lookup_fs(s, q) == lookup_fs(fsv, q) by {
        lemma_lookup_push(r, p, n, q);
        lemma_lookup_remove(fsv, p, q);
    }
}

/// If index `i` holds path `p`, a front-to-back lookup of `p` finds something.
proof fn lemma_lookup_index_some(fsv: Seq<(Seq<char>, FsNodeV)>, p: Seq<char>, i: int)
    requires
        0 <= i < fsv.len(),
        fsv[i].0 == p,
    ensures
        lookup_fs(fsv, p) is Some,
    decreases i,
{
    if fsv[0].0 == p {
    } else {
        lemma_lookup_index_some(fsv.skip(1), p, i - 1);
    }
}

proof fn lemma_lookup_push(fsv: Seq<(Seq<char>, FsNodeV)>, p: Seq<char>, n: FsNodeV, q: Seq<char>)
    ensures
        q == p && lookup_fs(fsv, q) is None ==> lookup_fs(fsv.push((p, n)), q) == Some(n),
        q != p ==> lookup_fs(fsv.push((p, n)), q) == lookup_fs(fsv, q),
    decreases fsv.len(),
{
    let w = fsv.push((p, n));
    if fsv.len() == 0 {
        assert(w[0] == (p, n));
        assert(w.skip(1) =~= Seq::<(Seq<char>, FsNodeV)>::empty());
        assert(lookup_fs(w.skip(1), q) is None);
        if q != p {
            assert(lookup_fs(w, q) == lookup_fs(w.skip(1), q));
        }
    } else {
        lemma_lookup_push(fsv.skip(1), p, n, q);
        assert(w[0] == fsv[0]);
        assert(w.len() == fsv.len() + 1);
        assert(w.skip(1) =~= fsv.skip(1).push((p, n)));
        if fsv[0].0 == q {
            assert(lookup_fs(w, q) == Some(fsv[0].1));
            assert(lookup_fs(fsv, q) == Some(fsv[0].1));
        } else {
            assert(lookup_fs(w, q) == lookup_fs(w.skip(1), q));
            assert(lookup_fs(fsv, q) == lookup_fs(fsv.skip(1), q));
        }
    }
}

/// `remove_fs` of an absent path changes nothing.
pub proof fn lemma_remove_absent(fsv: Seq<(Seq<char>, FsNodeV)>, p: Seq<char>)
    requires
        lookup_fs(fsv, p) is None,
    ensures
        remove_fs(fsv, p) == fsv,
    decreases fsv.len(),
{
    if fsv.len() == 0 {
        assert(remove_fs(fsv, p) =~= fsv);
    } else {
        lemma_remove_absent(fsv.skip(1), p);
        assert(seq![fsv[0]] + fsv.skip(1) =~= fsv);
    }
}

/// The in-memory filesystem: an association list from path to node.
pub struct FsModel {
    pub entries: Vec<(String, FsNode)>,
}

impl View for FsModel {
    type V = Seq<(Seq<char>, FsNodeV)>;

    open spec fn view(&self) -> Seq<(Seq<char>, FsNodeV)> {
        Seq::new(self.entries@.len(), |i: int| (self.entries@[i].0@, self.entries@[i].1@))
    }
}

impl FsModel {
    pub open spec fn wf(&self) -> bool {
        fs_wf(self@)
    }

    /// An empty filesystem.
    pub fn new() -> (r: Self)
        ensures
            r@ == Seq::<(Seq<char>, FsNodeV)>::empty(),
            r.wf(),
    {
        let r = FsModel { entries: Vec::new() };
        proof {
            assert(r@ =~= Seq::<(Seq<char>, FsNodeV)>::empty());
        }
        r
    }

    /// Index of the entry at `p`, if any.
    fn find_index(&self, p: &str) -> (r: Option<usize>)
        ensures
            match r {
                Some(i) => i < self.entries@.len() && self@[i as int].0 == p@
                    && lookup_fs(self@, p@) == Some(self@[i as int].1),
                None => lookup_fs(self@, p@) is None,
            },
    {
        let n = self.entries.len();
        let mut i: usize = 0;
        proof {
            assert(self@.skip(0) =~= self@);
        }
        while i < n
            invariant
                i <= n,
                n == self.entries@.len(),
                lookup_fs(self@, p@) == lookup_fs(self@.skip(i as int), p@),
                forall|k: int| 0 <= k < i ==> (#[trigger] self@[k]).0 != p@,
            decreases n - i,
        {
            let e = &self.entries[i];
            if str_eq(e.0.as_str(), p) {
                return Some(i);
            }
            proof {
                assert(self@.skip(i as int).skip(1) =~= self@.skip(i + 1));
            }
            i = i + 1;
        }
        proof {
            assert(self@.skip(n as int) =~= Seq::<(Seq<char>, FsNodeV)>::empty());
        }
        None
    }

    /// The node at `p`, by reference.
    pub fn find(&self, p: &str) -> (r: Option<&FsNode>)
        ensures
            match r {
                Some(node) => lookup_fs(self@, p@) == Some(node@),
                None => lookup_fs(self@, p@) is None,
            },
    {
        match self.find_index(p) {
            Some(i) => Some(&self.entries[i].1),
            None => None,
        }
    }

    /// Probe the path: `Some(true)` for a directory, `Some(false)` for a
    /// file, `None` for nothing there.
    pub fn probe(&self, p: &str) -> (r: Option<bool>)
        ensures
            r == (match lookup_fs(self@, p@) {
                None => None::<bool>,
                Some(FsNodeV::Dir) => Some(true),
                Some(FsNodeV::File(c)) => Some(false),
            }),
    {
        match self.find(p) {
            Some(FsNode::Dir) => Some(true),
            Some(FsNode::File(_)) => Some(false),
            None => None,
        }
    }

    /// Remove the entry at `p` and hand its node back, if there was one.
    pub fn take(&mut self, p: &str) -> (r: Option<FsNode>)
        requires
            old(self).wf(),
        ensures
            final(self).wf(),
            final(self)@ == remove_fs(old(self)@, p@),
            match r {
                Some(node) => lookup_fs(old(self)@, p@) == Some(node@),
                None => lookup_fs(old(self)@, p@) is None,
            },
    {
        match self.find_index(p) {
            Some(i) => {
                let entry = self.entries.remove(i);
                proof {
                    lemma_remove_at_index(old(self)@, p@, i as int);
                    assert(self@ =~= old(self)@.subrange(0, i as int)
                        + old(self)@.skip(i as int + 1));
                    lemma_remove_wf(old(self)@, p@);
                }
                Some(entry.1)
            },
            None => {
                proof {
                    lemma_remove_absent(self@, p@);
                }
                None
            },
        }
    }

    /// Remove the entry at `p`; absent paths are left alone.
    pub fn remove(&mut self, p: &str)
        requires
            old(self).wf(),
        ensures
            final(self).wf(),
            final(self)@ == remove_fs(old(self)@, p@),
    {
        match self.find_index(p) {
            Some(i) => {
                self.entries.remove(i);
                proof {
                    lemma_remove_at_index(old(self)@, p@, i as int);
                    assert(self@ =~= old(self)@.subrange(0, i as int)
                        + old(self)@.skip(i as int + 1));
                    lemma_remove_wf(old(self)@, p@);
                }
            },
            None => {
                proof {
                    lemma_remove_absent(self@, p@);
                }
            },
        }
    }

    /// Bind `p` to `node`, replacing any existing entry.
    pub fn set(&mut self, p: &str, node: FsNode)
        requires
            old(self).wf(),
        ensures
            final(self).wf(),
            final(self)@ == set_fs(old(self)@, p@, node@),
    {
        let ghost nv = node@;
        let owned = String::from_str(p);
        self.remove(p);
        let ghost mid = self@;
        self.entries.push((owned, node));
        proof {
            assert(self@ =~= mid.push((p@, nv)));
            lemma_set_wf(old(self)@, p@, nv);
        }
    }
}

/// Removing path `p` that first occurs at index `i` drops exactly index `i`.
proof fn lemma_remove_at_index(fsv: Seq<(Seq<char>, FsNodeV)>, p: Seq<char>, i: int)
    requires
        0 <= i < fsv.len(),
        fsv[i].0 == p,
        forall|k: int| 0 <= k < i ==> (#[trigger] fsv[k]).0 != p,
    ensures
        remove_fs(fsv, p) == fsv.subrange(0, i) + fsv.skip(i + 1),
    decreases i,
{
    if i == 0 {
        assert(remove_fs(fsv, p) == fsv.skip(1));
        assert(fsv.subrange(0, 0) + fsv.skip(1) =~= fsv.skip(1));
    } else {
        assert(fsv[0].0 != p);
        lemma_remove_at_index(fsv.skip(1), p, i - 1);
        assert(fsv.skip(1).subrange(0, i - 1) =~= fsv.subrange(1, i));
        assert(fsv.skip(1).skip(i) =~= fsv.skip(i + 1));
        assert(seq![fsv[0]] + (fsv.subrange(1, i) + fsv.skip(i + 1))
            =~= fsv.subrange(0, i) + fsv.skip(i + 1));
    }
}

} // verus!
