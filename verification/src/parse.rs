//! The line parser: a raw input line's tokens become a `Pipeline` of
//! command segments joined by one control operator kind, or a parse
//! error. Nothing is executed here.
use vstd::prelude::*;

use crate::outcome::ShellError;
use crate::strutil::str_eq;

verus! {

/// Index of the first token equal to `sep`, or the length if none is.
pub open spec fn chunk_len(ts: Seq<Seq<char>>, sep: Seq<char>) -> nat
    decreases ts.len(),
{
    if ts.len() == 0 {
        0
    } else if ts[0] == sep {
        0
    } else {
        1 + chunk_len(ts.skip(1), sep)
    }
}

pub proof fn lemma_chunk_len_bound(ts: Seq<Seq<char>>, sep: Seq<char>)
    ensures
        chunk_len(ts, sep) <= ts.len(),
    decreases ts.len(),
{
    if ts.len() > 0 && ts[0] != sep {
        lemma_chunk_len_bound(ts.skip(1), sep);
    }
}

pub proof fn lemma_chunk_len_exact(ts: Seq<Seq<char>>, sep: Seq<char>, m: nat)
    requires
        m <= ts.len(),
        forall|k: int| 0 <= k < m ==> ts[k] != sep,
        m == ts.len() || ts[m as int] == sep,
    ensures
        chunk_len(ts, sep) == m,
    decreases m,
{
    if m > 0 {
        lemma_chunk_len_exact(ts.skip(1), sep, (m - 1) as nat);
    }
}

/// Some token equals `sep`.
pub open spec fn has_tok(ts: Seq<Seq<char>>, sep: Seq<char>) -> bool {
    exists|i: int| 0 <= i < ts.len() && ts[i] == sep
}

/// The token list split on `sep`, separators dropped, empty chunks kept:
/// exactly the shape a `&`- or `|`-joined line has.
pub open spec fn split_on(ts: Seq<Seq<char>>, sep: Seq<char>) -> Seq<Seq<Seq<char>>>
    decreases ts.len(),
    via split_on_decreases
{
    if ts.len() == 0 {
        seq![Seq::empty()]
    } else {
        let k = chunk_len(ts, sep);
        if k == ts.len() {
            seq![ts]
        } else {
            seq![ts.take(k as int)] + split_on(ts.skip(k as int + 1), sep)
        }
    }
}

#[via_fn]
proof fn split_on_decreases(ts: Seq<Seq<char>>, sep: Seq<char>) {
    lemma_chunk_len_bound(ts, sep);
}

/// A token list without the separator splits into itself alone.
pub proof fn lemma_no_sep_split(ts: Seq<Seq<char>>, sep: Seq<char>)
    requires
        ts.len() > 0,
        !has_tok(ts, sep),
    ensures
        split_on(ts, sep) == seq![ts],
{
    lemma_chunk_len_bound(ts, sep);
    if chunk_len(ts, sep) < ts.len() {
        lemma_chunk_first(ts, sep);
    }
}

/// No chunk is empty: every operator stands between two command segments.
pub open spec fn all_nonempty(segs: Seq<Seq<Seq<char>>>) -> bool {
    forall|i: int| 0 <= i < segs.len() ==> (#[trigger] segs[i]).len() > 0
}

/// Does any token of `v` equal `sep`? Also returns the first such index.
fn first_sep_index(v: &Vec<String>, sep: &str) -> (r: usize)
    ensures
        r == chunk_len(v.deep_view(), sep@),
        r <= v.len(),
{
    let n = v.len();
    let mut i: usize = 0;
    while i < n
        invariant
            i <= n,
            n == v.len(),
            forall|k: int| 0 <= k < i ==> v.deep_view()[k] != sep@,
        decreases n - i,
    {
        if str_eq(v[i].as_str(), sep) {
            proof {
                lemma_chunk_len_exact(v.deep_view(), sep@, i as nat);
            }
            return i;
        }
        i = i + 1;
    }
    proof {
        lemma_chunk_len_exact(v.deep_view(), sep@, n as nat);
    }
    n
}

pub fn contains_tok(v: &Vec<String>, sep: &str) -> (r: bool)
    ensures
        r == has_tok(v.deep_view(), sep@),
{
    let i = first_sep_index(v, sep);
    proof {
        lemma_chunk_len_bound(v.deep_view(), sep@);
        if i < v.len() {
            lemma_chunk_first(v.deep_view(), sep@);
        } else {
            lemma_chunk_none(v.deep_view(), sep@);
        }
    }
    i < v.len()
}

pub proof fn lemma_chunk_first(ts: Seq<Seq<char>>, sep: Seq<char>)
    requires
        chunk_len(ts, sep) < ts.len(),
    ensures
        ts[chunk_len(ts, sep) as int] == sep,
        has_tok(ts, sep),
    decreases ts.len(),
{
    if ts.len() > 0 && ts[0] != sep {
        lemma_chunk_first(ts.skip(1), sep);
    }
}

proof fn lemma_chunk_none(ts: Seq<Seq<char>>, sep: Seq<char>)
    requires
        chunk_len(ts, sep) == ts.len(),
    ensures
        !has_tok(ts, sep),
    decreases ts.len(),
{
    if ts.len() > 0 {
        lemma_chunk_none(ts.skip(1), sep);
        assert forall|i: int| 0 <= i < ts.len() implies ts[i] != sep by {
            if i > 0 {
                assert(ts.skip(1)[i - 1] == ts[i]);
            }
        }
    }
}

/// Copy the tokens `v[from..to]` into a fresh vector.
fn copy_range(v: &Vec<String>, from: usize, to: usize) -> (r: Vec<String>)
    requires
        from <= to <= v.len(),
    ensures
        r.deep_view() == v.deep_view().subrange(from as int, to as int),
{
    let mut out: Vec<String> = Vec::new();
    let mut k = from;
    proof {
        assert(out.deep_view() =~= v.deep_view().subrange(from as int, from as int));
    }
    while k < to
        invariant
            from <= k <= to <= v.len(),
            out.deep_view() == v.deep_view().subrange(from as int, k as int),
        decreases to - k,
    {
        let ghost prev = out.deep_view();
        let item = v[k].clone();
        let ghost iv = item@;
        out.push(item);
        proof {
            assert(out.deep_view() =~= prev.push(iv));
            assert(prev.push(iv) =~= v.deep_view().subrange(from as int, k + 1));
        }
        k = k + 1;
    }
    out
}

/// Split the token list on separator `sep`, keeping empty chunks.
pub fn split_tokens(v: &Vec<String>, sep: &str) -> (r: Vec<Vec<String>>)
    ensures
        r.deep_view() == split_on(v.deep_view(), sep@),
{
    proof {
        assert(v.deep_view().skip(0) =~= v.deep_view());
    }
    split_from(v, sep, 0)
}

fn split_from(v: &Vec<String>, sep: &str, start: usize) -> (r: Vec<Vec<String>>)
    requires
        start <= v.len(),
    ensures
        r.deep_view() == split_on(v.deep_view().skip(start as int), sep@),
    decreases v.len() - start,
{
    let n = v.len();
    let ghost tail = v.deep_view().skip(start as int);
    let mut j = start;
    while j < n && !str_eq(v[j].as_str(), sep)
        invariant
            start <= j <= n,
            n == v.len(),
            forall|k: int| start <= k < j ==> v.deep_view()[k] != sep@,
        decreases n - j,
    {
        j = j + 1;
    }
    proof {
        assert forall|k: int| 0 <= k < j - start implies tail[k] != sep@ by {
            assert(tail[k] == v.deep_view()[start + k]);
        }
        if j < n {
            assert(tail[j - start] == v.deep_view()[j as int]);
        }
        lemma_chunk_len_exact(tail, sep@, (j - start) as nat);
    }
    let chunk = copy_range(v, start, j);
    proof {
        assert(tail.take(j - start) =~= v.deep_view().subrange(start as int, j as int));
    }
    if j < n {
        let mut rest = split_from(v, sep, j + 1);
        let mut out: Vec<Vec<String>> = Vec::new();
        let ghost cv = chunk.deep_view();
        out.push(chunk);
        let ghost rv = rest.deep_view();
        let ghost ov = out.deep_view();
        out.append(&mut rest);
        proof {
            assert(ov =~= seq![cv]);
            assert(out.deep_view() =~= ov + rv);
            assert(tail.skip(j - start + 1) =~= v.deep_view().skip(j + 1));
            assert(tail.len() == n - start);
            assert(chunk_len(tail, sep@) < tail.len());
            assert(split_on(tail, sep@) == seq![tail.take(j - start)]
                + split_on(tail.skip(j - start + 1), sep@));
            assert(out.deep_view() =~~= split_on(tail, sep@));
        }
        out
    } else {
        let mut out: Vec<Vec<String>> = Vec::new();
        let ghost cv = chunk.deep_view();
        out.push(chunk);
        proof {
            assert(chunk_len(tail, sep@) == tail.len());
            assert(cv =~= tail);
            assert(out.deep_view() =~~= split_on(tail, sep@));
        }
        out
    }
}

/// How adjacent segments of a pipeline are joined.
#[derive(Clone, Copy, PartialEq, Eq, Structural, Debug)]
pub enum Joiner {
    /// A single command, no operator.
    Single,
    /// Segments joined by `|`: each feeds its text to the next.
    Piped,
    /// Segments joined by `&`: each dispatched independently.
    Background,
    /// One command whose output is written to the redirect target.
    Redirected,
}

/// Mathematical model of a parsed pipeline.
pub ghost struct PipelineV {
    pub segments: Seq<Seq<Seq<char>>>,
    pub joiner: Joiner,
    pub redirect: Option<Seq<char>>,
}

/// The full parsed representation of one input line.
pub struct Pipeline {
    pub segments: Vec<Vec<String>>,
    pub joiner: Joiner,
    pub redirect: Option<String>,
}

impl View for Pipeline {
    type V = PipelineV;

    open spec fn view(&self) -> PipelineV {
        PipelineV {
            segments: self.segments.deep_view(),
            joiner: self.joiner,
            redirect: match self.redirect {
                Some(ref t) => Some(t@),
                None => None,
            },
        }
    }
}

/// What parsing a token list yields: the unique pipeline it denotes, or
/// the parse error that rejects it. Empty lines, dangling operators,
/// mixed operators and malformed redirections are rejected; nothing else is.
pub open spec fn parse_spec(ts: Seq<Seq<char>>) -> Result<PipelineV, ShellError> {
    if ts.len() == 0 {
        Err(ShellError::EmptyPipeline)
    } else if has_tok(ts, ">"@) {
        let p = chunk_len(ts, ">"@) as int;
        if 1 <= p && p == ts.len() - 2 && !has_tok(ts.take(p), "|"@) && !has_tok(ts.take(p), "&"@)
            && ts[ts.len() - 1] != "|"@ && ts[ts.len() - 1] != "&"@ && ts[ts.len() - 1] != ">"@ {
            Ok(PipelineV {
                segments: seq![ts.take(p)],
                joiner: Joiner::Redirected,
                redirect: Some(ts[ts.len() - 1]),
            })
        } else {
            Err(ShellError::MalformedRedirect)
        }
    } else if has_tok(ts, "|"@) {
        if has_tok(ts, "&"@) {
            Err(ShellError::MixedOperators)
        } else if all_nonempty(split_on(ts, "|"@)) {
            Ok(PipelineV {
                segments: split_on(ts, "|"@),
                joiner: Joiner::Piped,
                redirect: None,
            })
        } else {
            Err(ShellError::DanglingOperator)
        }
    } else if has_tok(ts, "&"@) {
        if all_nonempty(split_on(ts, "&"@)) {
            Ok(PipelineV {
                segments: split_on(ts, "&"@),
                joiner: Joiner::Background,
                redirect: None,
            })
        } else {
            Err(ShellError::DanglingOperator)
        }
    } else {
        Ok(PipelineV { segments: seq![ts], joiner: Joiner::Single, redirect: None })
    }
}

/// The view of a parse result.
pub open spec fn parse_result_view(r: Result<Pipeline, ShellError>) -> Result<
    PipelineV,
    ShellError,
> {
    match r {
        Ok(pl) => Ok(pl@),
        Err(e) => Err(e),
    }
}

/// Check every segment holds at least one token.
fn segments_nonempty(segs: &Vec<Vec<String>>) -> (r: bool)
    ensures
        r == all_nonempty(segs.deep_view()),
{
    let n = segs.len();
    let mut i: usize = 0;
    while i < n
        invariant
            i <= n,
            n == segs.len(),
            forall|k: int| 0 <= k < i ==> (#[trigger] segs.deep_view()[k]).len() > 0,
        decreases n - i,
    {
        if segs[i].len() == 0 {
            assert(segs.deep_view()[i as int].len() == 0);
            return false;
        }
        i = i + 1;
    }
    true
}

/// Parse one line's tokens into a pipeline, or reject the line.
pub fn parse_line(tokens: &Vec<String>) -> (r: Result<Pipeline, ShellError>)
    ensures
        parse_result_view(r) == parse_spec(tokens.deep_view()),
{
    let ghost ts = tokens.deep_view();
    let n = tokens.len();
    if n == 0 {
        return Err(ShellError::EmptyPipeline);
    }
    if contains_tok(tokens, ">") {
        let p = first_sep_index(tokens, ">");
        if !(1 <= p && n >= 2 && p == n - 2) {
            return Err(ShellError::MalformedRedirect);
        }
        let cmd = copy_range(tokens, 0, p);
        proof {
            assert(ts.take(p as int) =~= ts.subrange(0, p as int));
        }
        if contains_tok(&cmd, "|") || contains_tok(&cmd, "&") {
            return Err(ShellError::MalformedRedirect);
        }
        let last = &tokens[n - 1];
        if str_eq(last.as_str(), "|") || str_eq(last.as_str(), "&")
            || str_eq(last.as_str(), ">") {
            return Err(ShellError::MalformedRedirect);
        }
        let target = last.clone();
        let mut segs: Vec<Vec<String>> = Vec::new();
        let ghost cv = cmd.deep_view();
        segs.push(cmd);
        proof {
            assert(segs.deep_view() =~= seq![cv]);
        }
        return Ok(Pipeline {
            segments: segs,
            joiner: Joiner::Redirected,
            redirect: Some(target),
        });
    }
    if contains_tok(tokens, "|") {
        if contains_tok(tokens, "&") {
            return Err(ShellError::MixedOperators);
        }
        let segs = split_tokens(tokens, "|");
        if !segments_nonempty(&segs) {
            return Err(ShellError::DanglingOperator);
        }
        return Ok(Pipeline { segments: segs, joiner: Joiner::Piped, redirect: None });
    }
    if contains_tok(tokens, "&") {
        let segs = split_tokens(tokens, "&");
        if !segments_nonempty(&segs) {
            return Err(ShellError::DanglingOperator);
        }
        return Ok(Pipeline { segments: segs, joiner: Joiner::Background, redirect: None });
    }
    let whole = copy_range(tokens, 0, n);
    let mut segs: Vec<Vec<String>> = Vec::new();
    let ghost wv = whole.deep_view();
    segs.push(whole);
    proof {
        assert(wv =~= ts);
        assert(segs.deep_view() =~= seq![ts]);
    }
    Ok(Pipeline { segments: segs, joiner: Joiner::Single, redirect: None })
}

/// Count of leading option tokens: those starting with `-`.
pub open spec fn opt_count(ts: Seq<Seq<char>>) -> nat
    decreases ts.len(),
{
    if ts.len() == 0 || ts[0].len() == 0 || ts[0][0] != '-' {
        0
    } else {
        1 + opt_count(ts.skip(1))
    }
}

pub proof fn lemma_opt_count_bound(ts: Seq<Seq<char>>)
    ensures
        opt_count(ts) <= ts.len(),
    decreases ts.len(),
{
    if !(ts.len() == 0 || ts[0].len() == 0 || ts[0][0] != '-') {
        lemma_opt_count_bound(ts.skip(1));
    }
}

proof fn lemma_opt_count_exact(ts: Seq<Seq<char>>, m: nat)
    requires
        m <= ts.len(),
        forall|k: int| 0 <= k < m ==> (#[trigger] ts[k]).len() > 0 && ts[k][0] == '-',
        m == ts.len() || ts[m as int].len() == 0 || ts[m as int][0] != '-',
    ensures
        opt_count(ts) == m,
    decreases m,
{
    if m > 0 {
        lemma_opt_count_exact(ts.skip(1), (m - 1) as nat);
    }
}

/// The name of the command a segment invokes.
pub open spec fn seg_name(seg: Seq<Seq<char>>) -> Seq<char> {
    seg[0]
}

/// The leading `-` options of a segment.
pub open spec fn seg_opts(seg: Seq<Seq<char>>) -> Seq<Seq<char>> {
    seg.subrange(1, 1 + opt_count(seg.skip(1)) as int)
}

/// The positional arguments of a segment: everything after the options.
pub open spec fn seg_args(seg: Seq<Seq<char>>) -> Seq<Seq<char>> {
    seg.skip(1 + opt_count(seg.skip(1)) as int)
}

/// A parsed unit: a command name, its option flags, and its positional
/// arguments. Rebuilt for every segment and discarded after dispatch.
pub struct CommandInvocation {
    pub name: String,
    pub options: Vec<String>,
    pub args: Vec<String>,
}

/// Split one segment's tokens into name, leading options and arguments.
pub fn invocation_of(seg: &Vec<String>) -> (r: CommandInvocation)
    requires
        seg.len() > 0,
    ensures
        r.name@ == seg_name(seg.deep_view()),
        r.options.deep_view() == seg_opts(seg.deep_view()),
        r.args.deep_view() == seg_args(seg.deep_view()),
{
    let ghost sv = seg.deep_view();
    let name = seg[0].clone();
    let n = seg.len();
    let mut i: usize = 1;
    while i < n && is_option(&seg[i])
        invariant
            1 <= i <= n,
            n == seg.len(),
            sv == seg.deep_view(),
            sv.len() == n,
            forall|k: int| 1 <= k < i ==> (#[trigger] sv[k]).len() > 0 && sv[k][0] == '-',
        decreases n - i,
    {
        proof {
            assert(sv[i as int] == seg@[i as int]@);
        }
        i = i + 1;
    }
    proof {
        if i < n {
            assert(sv[i as int] == seg@[i as int]@);
        }
    }
    proof {
        let rest = sv.skip(1);
        assert forall|k: int| 0 <= k < i - 1 implies (#[trigger] rest[k]).len() > 0
            && rest[k][0] == '-' by {
            assert(rest[k] == sv[k + 1]);
        }
        if i < n {
            assert(rest[i - 1] == sv[i as int]);
        }
        lemma_opt_count_exact(rest, (i - 1) as nat);
        assert(sv.subrange(1, i as int) =~= sv.subrange(1, 1 + opt_count(rest) as int));
    }
    let options = copy_range(seg, 1, i);
    let args = copy_range(seg, i, n);
    proof {
        assert(sv.skip(i as int) =~= sv.subrange(i as int, n as int));
    }
    CommandInvocation { name, options, args }
}

fn is_option(t: &String) -> (r: bool)
    ensures
        r == (t@.len() > 0 && t@[0] == '-'),
{
    let s = t.as_str();
    if s.unicode_len() == 0 {
        return false;
    }
    s.get_char(0) == '-'
}

} // verus!
