//! Library-wide laws: properties that relate several operations, stated
//! and proved once, over the same models the operations' own contracts use.
use vstd::prelude::*;

use crate::compose::{and_spec, seg_step, ExecSt};
use crate::dispatch::{step, StepR};
use crate::fsmodel::{
    fs_wf, lemma_lookup_remove, lemma_remove_wf, lookup_fs, remove_fs, FsNodeV,
};
use crate::parse::{seg_args, seg_name, seg_opts};

verus! {

/// Removing a path removes exactly that entry: afterwards the path has no
/// node, every other path keeps the node it had, and well-formedness is
/// kept. This holds whatever the entry was — directory or file — so `rm`,
/// which probes the filesystem at call time and removes whichever kind it
/// finds, leaves the path gone either way.
pub proof fn lemma_rm_removes(fsv: Seq<(Seq<char>, FsNodeV)>, p: Seq<char>)
    requires
        fs_wf(fsv),
    ensures
        fs_wf(remove_fs(fsv, p)),
        lookup_fs(remove_fs(fsv, p), p) is None,
        forall|q: Seq<char>| q != p ==> #[trigger] lookup_fs(remove_fs(fsv, p), q)
            == lookup_fs(fsv, q),
{
    lemma_remove_wf(fsv, p);
    lemma_lookup_remove(fsv, p, p);
    assert forall|q: Seq<char>| q != p implies #[trigger] lookup_fs(remove_fs(fsv, p), q)
        == lookup_fs(fsv, q) by {
        lemma_lookup_remove(fsv, p, q);
    }
}

/// Pipe composition: the segment that receives a piped-in text runs with
/// its own arguments first, in their original order, and the previous
/// segment's result text appended as one final argument — nothing is
/// substituted into its options or dropped.
pub proof fn lemma_pipe_appends_args(st: ExecSt, seg: Seq<Seq<char>>, prev: Seq<char>)
    ensures
        seg_step(st, seg, Some(prev)) == step(
            st.sess,
            st.fs,
            seg_name(seg),
            seg_opts(seg),
            seg_args(seg).push(prev),
        ),
        seg_args(seg).push(prev).len() == seg_args(seg).len() + 1,
        seg_args(seg).push(prev).take(seg_args(seg).len() as int) == seg_args(seg),
        seg_args(seg).push(prev)[seg_args(seg).len() as int] == prev,
{
    assert(seg_args(seg).push(prev).take(seg_args(seg).len() as int) =~= seg_args(seg));
}

/// Background composition dispatches every segment: the result list holds
/// exactly one entry per segment, so no segment's failure — every result,
/// `Ok` or `Err`, stands in the list — prevents a sibling's dispatch.
pub proof fn lemma_background_dispatches_all(st: ExecSt, segs: Seq<Seq<Seq<char>>>)
    ensures
        and_spec(st, segs).results.len() == segs.len(),
    decreases segs.len(),
{
    if segs.len() > 0 {
        let sr = seg_step(st, segs[0], None);
        let st2 = ExecSt { sess: sr.sess, fs: sr.fs };
        lemma_background_dispatches_all(st2, segs.skip(1));
    }
}

/// The history log is append-only: pushing an entry keeps every existing
/// entry at its index and places the new entry last.
pub proof fn lemma_history_append_only(history: Seq<Seq<char>>, entry: Seq<char>)
    ensures
        history.push(entry).len() == history.len() + 1,
        history.push(entry).take(history.len() as int) == history,
        history.push(entry)[history.len() as int] == entry,
{
    assert(history.push(entry).take(history.len() as int) =~= history);
}

} // verus!
