//! The pipeline composer: executes a parsed line's segments honoring the
//! operator semantics — sequential piping of each segment's text into the
//! next segment's argument list, independent background dispatch, and
//! output redirection into the filesystem — and appends the raw line to
//! the history log. The meaning of every composition is a spec function
//! built from `step`.
use vstd::prelude::*;

use crate::dispatch::{dispatch, step, ActV, ExternalAction, StepR};
use crate::fsmodel::{lemma_set_wf, lookup_fs, set_fs, FsModel, FsNode, FsNodeV};
use crate::outcome::{ShellError, STATUS_OK};
use crate::parse::{
    all_nonempty, invocation_of, lemma_no_sep_split, parse_line, parse_spec, split_on,
    split_tokens, seg_args, seg_name, seg_opts, Joiner,
};
use crate::session::{history_push, SessionContext, SessV};
use crate::strutil::{split_ws, tokenize};

verus! {

/// The mutable state a pipeline runs in: the session and the filesystem.
pub ghost struct ExecSt {
    pub sess: SessV,
    pub fs: Seq<(Seq<char>, FsNodeV)>,
}

/// The view of one executed result.
pub open spec fn res_pair_view(r: Result<(usize, String), ShellError>) -> Result<
    (usize, Seq<char>),
    ShellError,
> {
    match r {
        Ok(p) => Ok((p.0, p.1@)),
        Err(e) => Err(e),
    }
}

/// The views of a list of executed results.
pub open spec fn results_view(s: Seq<Result<(usize, String), ShellError>>) -> Seq<
    Result<(usize, Seq<char>), ShellError>,
> {
    Seq::new(s.len(), |i: int| res_pair_view(s[i]))
}

/// The views of the collaborator requests collected so far.
pub open spec fn acts_view(s: Seq<ExternalAction>) -> Seq<ActV> {
    Seq::new(s.len(), |i: int| s[i]@)
}

/// Zero or one requests, as a sequence.
pub open spec fn act_opt(a: Option<ActV>) -> Seq<ActV> {
    match a {
        Some(x) => seq![x],
        None => Seq::empty(),
    }
}

/// The view of the optional text piped in from the previous segment.
pub open spec fn prev_view(p: Option<String>) -> Option<Seq<char>> {
    match p {
        Some(s) => Some(s@),
        None => None,
    }
}

/// Dispatch one segment in state `st`. When a previous segment piped text
/// in, that text is appended at the end of this segment's argument list,
/// its own arguments first and in order.
pub open spec fn seg_step(st: ExecSt, seg: Seq<Seq<char>>, prev: Option<Seq<char>>) -> StepR {
    let args = match prev {
        None => seg_args(seg),
        Some(t) => seg_args(seg).push(t),
    };
    step(st.sess, st.fs, seg_name(seg), seg_opts(seg), args)
}

/// What composing segments yields: the final state, one result, and the
/// collaborator requests in dispatch order.
pub ghost struct PipeR {
    pub st: ExecSt,
    pub res: Result<(usize, Seq<char>), ShellError>,
    pub acts: Seq<ActV>,
}

/// Sequential `|` composition: segments run left to right, each segment's
/// result text piped into the next. A failing segment aborts the rest of
/// the chain; the final segment's text is the pipeline's text.
pub open spec fn pipe_spec(st: ExecSt, segs: Seq<Seq<Seq<char>>>, prev: Option<Seq<char>>) -> PipeR
    decreases segs.len(),
{
    if segs.len() == 0 {
        PipeR {
            st,
            res: Ok(
                (
                    STATUS_OK,
                    match prev {
                        Some(t) => t,
                        None => Seq::empty(),
                    },
                ),
            ),
            acts: Seq::empty(),
        }
    } else {
        let sr = seg_step(st, segs[0], prev);
        let st2 = ExecSt { sess: sr.sess, fs: sr.fs };
        match sr.res {
            Err(e) => PipeR { st: st2, res: Err(e), acts: act_opt(sr.action) },
            Ok(rt) => {
                let rest = pipe_spec(st2, segs.skip(1), Some(rt.1));
                PipeR { st: rest.st, res: rest.res, acts: act_opt(sr.action) + rest.acts }
            },
        }
    }
}

/// Independent `&` composition: every segment is dispatched, in order,
/// each with its own fresh argument list; no failure stops a sibling.
pub ghost struct AndR {
    pub st: ExecSt,
    pub results: Seq<Result<(usize, Seq<char>), ShellError>>,
    pub acts: Seq<ActV>,
}

pub open spec fn and_spec(st: ExecSt, segs: Seq<Seq<Seq<char>>>) -> AndR
    decreases segs.len(),
{
    if segs.len() == 0 {
        AndR { st, results: Seq::empty(), acts: Seq::empty() }
    } else {
        let sr = seg_step(st, segs[0], None);
        let st2 = ExecSt { sess: sr.sess, fs: sr.fs };
        let rest = and_spec(st2, segs.skip(1));
        AndR {
            st: rest.st,
            results: seq![sr.res] + rest.results,
            acts: act_opt(sr.action) + rest.acts,
        }
    }
}

/// `>` composition: run the one command, then write its result text as
/// the contents of the target file, creating or truncating it; the
/// pipeline's own result becomes a fixed acknowledgement.
pub open spec fn redirect_spec(st: ExecSt, seg: Seq<Seq<char>>, target: Seq<char>) -> PipeR {
    let sr = seg_step(st, seg, None);
    match sr.res {
        Err(e) => PipeR {
            st: ExecSt { sess: sr.sess, fs: sr.fs },
            res: Err(e),
            acts: act_opt(sr.action),
        },
        Ok(rt) => PipeR {
            st: ExecSt { sess: sr.sess, fs: set_fs(sr.fs, target, FsNodeV::File(rt.1)) },
            res: Ok((STATUS_OK, "write over!"@)),
            acts: act_opt(sr.action),
        },
    }
}

/// Execute `|`-joined segments of a token list left to right, feeding each
/// result text to the next segment. Requests to outside collaborators are
/// appended to `actions` in dispatch order.
#[verifier::rlimit(100)]
pub fn pipe(
    command: &Vec<String>,
    session: &mut SessionContext,
    fs: &mut FsModel,
    actions: &mut Vec<ExternalAction>,
) -> (r: Result<(usize, String), ShellError>)
    requires
        old(fs).wf(),
        all_nonempty(split_on(command.deep_view(), "|"@)),
    ensures
        final(fs).wf(),
        ({
            let pr = pipe_spec(
                ExecSt { sess: old(session)@, fs: old(fs)@ },
                split_on(command.deep_view(), "|"@),
                None,
            );
            &&& final(session)@ == pr.st.sess
            &&& final(fs)@ == pr.st.fs
            &&& res_pair_view(r) == pr.res
            &&& acts_view(final(actions)@) == acts_view(old(actions)@) + pr.acts
        }),
{
    let ghost st0 = ExecSt { sess: old(session)@, fs: old(fs)@ };
    let ghost segsv = split_on(command.deep_view(), "|"@);
    let segs = split_tokens(command, "|");
    let n = segs.len();
    let mut prev: Option<String> = None;
    let ghost mut done: Seq<ActV> = Seq::empty();
    let mut i: usize = 0;
    proof {
        assert(segsv.skip(0) =~= segsv);
        assert(acts_view(actions@) + done =~= acts_view(actions@));
    }
    while i < n
        invariant
            i <= n,
            n == segs@.len(),
            st0 == (ExecSt { sess: old(session)@, fs: old(fs)@ }),
            segsv == split_on(command.deep_view(), "|"@),
            segs.deep_view() == segsv,
            all_nonempty(segsv),
            fs.wf(),
            i == 0 ==> prev is None,
            ({
                let rem = pipe_spec(ExecSt { sess: session@, fs: fs@ }, segsv.skip(i as int),
                    prev_view(prev));
                let pr = pipe_spec(st0, segsv, None);
                &&& pr.st == rem.st
                &&& pr.res == rem.res
                &&& pr.acts == done + rem.acts
            }),
            acts_view(actions@) == acts_view(old(actions)@) + done,
        decreases n - i,
    {
        let ghost cur = ExecSt { sess: session@, fs: fs@ };
        let ghost prevv = prev_view(prev);
        let seg = &segs[i];
        proof {
            assert(seg.deep_view() == segsv[i as int]);
            assert(segsv.skip(i as int)[0] == segsv[i as int]);
            assert(seg@.len() == segsv[i as int].len());
        }
        let mut inv = invocation_of(seg);
        match prev {
            Some(p) => {
                let ghost av = inv.args.deep_view();
                let ghost pv = p@;
                inv.args.push(p);
                proof {
                    assert(inv.args.deep_view() =~= av.push(pv));
                }
            },
            None => {},
        }
        let ghost sr = seg_step(cur, segsv[i as int], prevv);
        let res = dispatch(&inv, session, fs);
        proof {
            assert(sr == step(cur.sess, cur.fs, inv.name@, inv.options.deep_view(),
                inv.args.deep_view()));
        }
        match res {
            Err(e) => {
                proof {
                    assert(pipe_spec(cur, segsv.skip(i as int), prevv).st == (ExecSt {
                        sess: sr.sess,
                        fs: sr.fs,
                    }));
                    assert(pipe_spec(cur, segsv.skip(i as int), prevv).res == Err::<
                        (usize, Seq<char>),
                        ShellError,
                    >(e));
                    assert(act_opt(sr.action) =~= Seq::<ActV>::empty());
                    assert(done + act_opt(sr.action) =~= done);
                    assert(acts_view(actions@) =~= acts_view(old(actions)@) + (done + act_opt(
                        sr.action,
                    )));
                }
                return Err(e);
            },
            Ok(out) => {
                let ghost rt1 = out.text@;
                match out.action {
                    Some(a) => {
                        let ghost av = a@;
                        let ghost pacts = acts_view(actions@);
                        actions.push(a);
                        proof {
                            assert(acts_view(actions@) =~= pacts.push(av));
                            done = done + seq![av];
                            assert(acts_view(actions@) =~= acts_view(old(actions)@) + done);
                            assert(act_opt(sr.action) =~= seq![av]);
                        }
                    },
                    None => {
                        proof {
                            assert(act_opt(sr.action) =~= Seq::<ActV>::empty());
                        }
                    },
                }
                proof {
                    assert(segsv.skip(i as int).skip(1) =~= segsv.skip(i + 1));
                    let rem_old = pipe_spec(cur, segsv.skip(i as int), prevv);
                    let st2 = ExecSt { sess: sr.sess, fs: sr.fs };
                    assert(rem_old.st == pipe_spec(st2, segsv.skip(i + 1), Some(rt1)).st);
                    assert(rem_old.res == pipe_spec(st2, segsv.skip(i + 1), Some(rt1)).res);
                    assert(rem_old.acts =~= act_opt(sr.action) + pipe_spec(st2, segsv.skip(i + 1),
                        Some(rt1)).acts);
                }
                prev = Some(out.text);
                i = i + 1;
            },
        }
    }
    proof {
        assert(segsv.skip(n as int) =~= Seq::<Seq<Seq<char>>>::empty());
        assert(done + Seq::<ActV>::empty() =~= done);
        assert(pipe_spec(ExecSt { sess: session@, fs: fs@ }, segsv.skip(n as int),
            prev_view(prev)).st == (ExecSt { sess: session@, fs: fs@ }));
    }
    match prev {
        Some(t) => Ok((STATUS_OK, t)),
        None => Ok((STATUS_OK, String::new())),
    }
}

/// Dispatch every `&`-joined segment of the token list, each
/// unconditionally and with its own fresh argument list: one result per
/// segment, a failure never prevents a sibling's dispatch.
pub fn and(
    command: &Vec<String>,
    session: &mut SessionContext,
    fs: &mut FsModel,
    actions: &mut Vec<ExternalAction>,
) -> (r: Vec<Result<(usize, String), ShellError>>)
    requires
        old(fs).wf(),
        all_nonempty(split_on(command.deep_view(), "&"@)),
    ensures
        final(fs).wf(),
        r@.len() == split_on(command.deep_view(), "&"@).len(),
        ({
            let ar = and_spec(
                ExecSt { sess: old(session)@, fs: old(fs)@ },
                split_on(command.deep_view(), "&"@),
            );
            &&& final(session)@ == ar.st.sess
            &&& final(fs)@ == ar.st.fs
            &&& results_view(r@) == ar.results
            &&& acts_view(final(actions)@) == acts_view(old(actions)@) + ar.acts
        }),
{
    let ghost st0 = ExecSt { sess: old(session)@, fs: old(fs)@ };
    let ghost segsv = split_on(command.deep_view(), "&"@);
    let segs = split_tokens(command, "&");
    let n = segs.len();
    let mut results: Vec<Result<(usize, String), ShellError>> = Vec::new();
    let ghost mut done: Seq<ActV> = Seq::empty();
    let mut i: usize = 0;
    proof {
        assert(segsv.skip(0) =~= segsv);
        assert(acts_view(actions@) + done =~= acts_view(actions@));
    }
    while i < n
        invariant
            i <= n,
            n == segs@.len(),
            st0 == (ExecSt { sess: old(session)@, fs: old(fs)@ }),
            segsv == split_on(command.deep_view(), "&"@),
            segs.deep_view() == segsv,
            all_nonempty(segsv),
            fs.wf(),
            results@.len() == i,
            ({
                let rem = and_spec(ExecSt { sess: session@, fs: fs@ }, segsv.skip(i as int));
                let ar = and_spec(st0, segsv);
                &&& ar.st == rem.st
                &&& ar.results == results_view(results@) + rem.results
                &&& ar.acts == done + rem.acts
            }),
            acts_view(actions@) == acts_view(old(actions)@) + done,
        decreases n - i,
    {
        let ghost cur = ExecSt { sess: session@, fs: fs@ };
        let seg = &segs[i];
        proof {
            assert(seg.deep_view() == segsv[i as int]);
            assert(segsv.skip(i as int)[0] == segsv[i as int]);
            assert(seg@.len() == segsv[i as int].len());
        }
        let inv = invocation_of(seg);
        let ghost sr = seg_step(cur, segsv[i as int], None);
        let res = dispatch(&inv, session, fs);
        proof {
            assert(sr == step(cur.sess, cur.fs, inv.name@, inv.options.deep_view(),
                inv.args.deep_view()));
        }
        let ghost prevres = results_view(results@);
        match res {
            Err(e) => {
                results.push(Err(e));
                proof {
                    assert(results_view(results@) =~= prevres.push(res_pair_view(Err(e))));
                    assert(act_opt(sr.action) =~= Seq::<ActV>::empty());
                }
            },
            Ok(out) => {
                match out.action {
                    Some(a) => {
                        let ghost av = a@;
                        let ghost pacts = acts_view(actions@);
                        actions.push(a);
                        proof {
                            assert(acts_view(actions@) =~= pacts.push(av));
                            done = done + seq![av];
                            assert(acts_view(actions@) =~= acts_view(old(actions)@) + done);
                            assert(act_opt(sr.action) =~= seq![av]);
                        }
                    },
                    None => {
                        proof {
                            assert(act_opt(sr.action) =~= Seq::<ActV>::empty());
                        }
                    },
                }
                let ghost ov = (out.code, out.text@);
                results.push(Ok((out.code, out.text)));
                proof {
                    assert(results_view(results@) =~= prevres.push(Ok(ov)));
                }
            },
        }
        proof {
            assert(segsv.skip(i as int).skip(1) =~= segsv.skip(i + 1));
            let rem_old = and_spec(cur, segsv.skip(i as int));
            let st2 = ExecSt { sess: sr.sess, fs: sr.fs };
            assert(rem_old.st == and_spec(st2, segsv.skip(i + 1)).st);
            assert(rem_old.results =~= seq![sr.res] + and_spec(st2, segsv.skip(i + 1)).results);
            assert(rem_old.acts =~= act_opt(sr.action) + and_spec(st2, segsv.skip(i + 1)).acts);
            assert(results_view(results@) =~= (results_view(results@).take(i as int)).push(
                sr.res,
            ));
        }
        i = i + 1;
    }
    proof {
        assert(segsv.skip(n as int) =~= Seq::<Seq<Seq<char>>>::empty());
        assert(done + Seq::<ActV>::empty() =~= done);
        assert(results_view(results@) + Seq::<Result<(usize, Seq<char>), ShellError>>::empty()
            =~= results_view(results@));
    }
    results
}

/// Execute the one non-redirected command of a `>` line, then write its
/// result text as the contents of the target file, truncating or creating
/// it. The caller sees the fixed acknowledgement, not the written text.
pub fn stdout_file(
    segment: &Vec<String>,
    target: &str,
    session: &mut SessionContext,
    fs: &mut FsModel,
    actions: &mut Vec<ExternalAction>,
) -> (r: Result<(usize, String), ShellError>)
    requires
        old(fs).wf(),
        segment.deep_view().len() > 0,
    ensures
        final(fs).wf(),
        ({
            let pr = redirect_spec(
                ExecSt { sess: old(session)@, fs: old(fs)@ },
                segment.deep_view(),
                target@,
            );
            &&& final(session)@ == pr.st.sess
            &&& final(fs)@ == pr.st.fs
            &&& res_pair_view(r) == pr.res
            &&& acts_view(final(actions)@) == acts_view(old(actions)@) + pr.acts
        }),
        ({
            let sr = seg_step(
                ExecSt { sess: old(session)@, fs: old(fs)@ },
                segment.deep_view(),
                None,
            );
            sr.res is Ok ==> lookup_fs(final(fs)@, target@) == Some(
                FsNodeV::File(sr.res->Ok_0.1),
            )
        }),
{
    let ghost cur = ExecSt { sess: old(session)@, fs: old(fs)@ };
    let inv = invocation_of(segment);
    let ghost sr = seg_step(cur, segment.deep_view(), None);
    let res = dispatch(&inv, session, fs);
    proof {
        assert(sr == step(cur.sess, cur.fs, inv.name@, inv.options.deep_view(),
            inv.args.deep_view()));
    }
    match res {
        Err(e) => {
            proof {
                assert(act_opt(sr.action) =~= Seq::<ActV>::empty());
                assert(acts_view(actions@) =~= acts_view(old(actions)@) + act_opt(sr.action));
            }
            Err(e)
        },
        Ok(out) => {
            match out.action {
                Some(a) => {
                    let ghost av = a@;
                    let ghost pacts = acts_view(actions@);
                    actions.push(a);
                    proof {
                        assert(acts_view(actions@) =~= pacts.push(av));
                        assert(acts_view(actions@) =~= acts_view(old(actions)@) + act_opt(
                            sr.action,
                        ));
                    }
                },
                None => {
                    proof {
                        assert(act_opt(sr.action) =~= Seq::<ActV>::empty());
                        assert(acts_view(actions@) =~= acts_view(old(actions)@) + act_opt(
                            sr.action,
                        ));
                    }
                },
            }
            let ghost fs_mid = fs@;
            fs.set(target, FsNode::File(out.text));
            proof {
                lemma_set_wf(fs_mid, target@, FsNodeV::File(sr.res->Ok_0.1));
            }
            let mut ack = String::new();
            ack.append("write over!");
            Ok((STATUS_OK, ack))
        },
    }
}

/// Execute one raw input line against the session and filesystem: parse
/// it, append it (unsplit) to the history log, and compose its segments
/// according to the line's operator. A line that fails to parse changes
/// nothing and enters no history. Execution failures come back inside the
/// per-segment results; only parse failures are the outer error.
pub fn execute_line(
    raw: &str,
    session: &mut SessionContext,
    fs: &mut FsModel,
    actions: &mut Vec<ExternalAction>,
) -> (r: Result<Vec<Result<(usize, String), ShellError>>, ShellError>)
    requires
        old(fs).wf(),
    ensures
        final(fs).wf(),
        ({
            let ts = split_ws(raw@);
            match parse_spec(ts) {
                Err(e) => {
                    &&& r is Err
                    &&& r->Err_0 == e
                    &&& final(session)@ == old(session)@
                    &&& final(fs)@ == old(fs)@
                    &&& final(actions)@ == old(actions)@
                },
                Ok(pl) => {
                    let st1 = ExecSt {
                        sess: SessV {
                            history: old(session)@.history.push(raw@),
                            ..old(session)@
                        },
                        fs: old(fs)@,
                    };
                    &&& final(session)@.history == old(session)@.history.push(raw@)
                    &&& (pl.joiner == Joiner::Single || pl.joiner == Joiner::Piped) ==> {
                        let pr = pipe_spec(st1, pl.segments, None);
                        &&& final(session)@ == pr.st.sess
                        &&& final(fs)@ == pr.st.fs
                        &&& r is Ok
                        &&& results_view(r->Ok_0@) == seq![pr.res]
                        &&& acts_view(final(actions)@) == acts_view(old(actions)@) + pr.acts
                    }
                    &&& pl.joiner == Joiner::Background ==> {
                        let ar = and_spec(st1, pl.segments);
                        &&& final(session)@ == ar.st.sess
                        &&& final(fs)@ == ar.st.fs
                        &&& r is Ok
                        &&& results_view(r->Ok_0@) == ar.results
                        &&& r->Ok_0@.len() == pl.segments.len()
                        &&& acts_view(final(actions)@) == acts_view(old(actions)@) + ar.acts
                    }
                    &&& pl.joiner == Joiner::Redirected ==> {
                        let pr = redirect_spec(st1, pl.segments[0], pl.redirect->0);
                        &&& final(session)@ == pr.st.sess
                        &&& final(fs)@ == pr.st.fs
                        &&& r is Ok
                        &&& results_view(r->Ok_0@) == seq![pr.res]
                        &&& acts_view(final(actions)@) == acts_view(old(actions)@) + pr.acts
                    }
                },
            }
        }),
{
    let tokens = tokenize(raw);
    let ghost ts = split_ws(raw@);
    let pl = match parse_line(&tokens) {
        Ok(pl) => pl,
        Err(e) => {
            return Err(e);
        },
    };
    history_push(session, String::from_str(raw));
    let ghost st1 = ExecSt { sess: session@, fs: fs@ };
    match pl.joiner {
        Joiner::Single => {
            proof {
                lemma_no_sep_split(ts, "|"@);
                assert(pl@.segments == seq![ts]);
                lemma_pipe_keeps_history(st1, split_on(ts, "|"@), None);
            }
            let res = pipe(&tokens, session, fs, actions);
            let mut out: Vec<Result<(usize, String), ShellError>> = Vec::new();
            let ghost rv = res_pair_view(res);
            out.push(res);
            proof {
                assert(results_view(out@) =~= seq![rv]);
            }
            Ok(out)
        },
        Joiner::Piped => {
            proof {
                lemma_pipe_keeps_history(st1, split_on(ts, "|"@), None);
            }
            let res = pipe(&tokens, session, fs, actions);
            let mut out: Vec<Result<(usize, String), ShellError>> = Vec::new();
            let ghost rv = res_pair_view(res);
            out.push(res);
            proof {
                assert(results_view(out@) =~= seq![rv]);
            }
            Ok(out)
        },
        Joiner::Background => {
            proof {
                lemma_and_keeps_history(st1, split_on(ts, "&"@));
            }
            let res = and(&tokens, session, fs, actions);
            Ok(res)
        },
        Joiner::Redirected => {
            let target = match pl.redirect {
                Some(t) => t,
                None => {
                    // the parser always records a target for a redirected line
                    return Err(ShellError::MalformedRedirect);
                },
            };
            proof {
                lemma_step_keeps_history(st1.sess, st1.fs, crate::parse::seg_name(pl@.segments[0]),
                    seg_opts(pl@.segments[0]), seg_args(pl@.segments[0]));
            }
            let res = stdout_file(&pl.segments[0], target.as_str(), session, fs, actions);
            let mut out: Vec<Result<(usize, String), ShellError>> = Vec::new();
            let ghost rv = res_pair_view(res);
            out.push(res);
            proof {
                assert(results_view(out@) =~= seq![rv]);
            }
            Ok(out)
        },
    }
}

/// A dispatch step never rewrites the history log: only the composer's
/// own append touches it.
pub proof fn lemma_step_keeps_history(
    sess: SessV,
    fsv: Seq<(Seq<char>, FsNodeV)>,
    name: Seq<char>,
    opts: Seq<Seq<char>>,
    args: Seq<Seq<char>>,
)
    ensures
        step(sess, fsv, name, opts, args).sess.history == sess.history,
{
}

/// A whole pipe chain keeps the history log unchanged.
pub proof fn lemma_pipe_keeps_history(st: ExecSt, segs: Seq<Seq<Seq<char>>>, prev: Option<Seq<char>>)
    ensures
        pipe_spec(st, segs, prev).st.sess.history == st.sess.history,
    decreases segs.len(),
{
    if segs.len() > 0 {
        let sr = seg_step(st, segs[0], prev);
        lemma_step_keeps_history(st.sess, st.fs, seg_name(segs[0]), seg_opts(segs[0]),
            match prev {
                None => seg_args(segs[0]),
                Some(t) => seg_args(segs[0]).push(t),
            });
        let st2 = ExecSt { sess: sr.sess, fs: sr.fs };
        match sr.res {
            Err(e) => {},
            Ok(rt) => {
                lemma_pipe_keeps_history(st2, segs.skip(1), Some(rt.1));
            },
        }
    }
}

/// Background composition keeps the history log unchanged.
pub proof fn lemma_and_keeps_history(st: ExecSt, segs: Seq<Seq<Seq<char>>>)
    ensures
        and_spec(st, segs).st.sess.history == st.sess.history,
    decreases segs.len(),
{
    if segs.len() > 0 {
        let sr = seg_step(st, segs[0], None);
        lemma_step_keeps_history(st.sess, st.fs, seg_name(segs[0]), seg_opts(segs[0]),
            seg_args(segs[0]));
        let st2 = ExecSt { sess: sr.sess, fs: sr.fs };
        lemma_and_keeps_history(st2, segs.skip(1));
    }
}

} // verus!
