//! String primitives for the shell: tokenization, substring search,
//! match highlighting, line splitting and joining, all specified over
//! `Seq<char>` views.
use vstd::prelude::*;

verus! {

/// Whitespace characters that delimit tokens on an input line.
pub open spec fn is_ws(c: char) -> bool {
    c == ' ' || c == '\t' || c == '\r' || c == '\n'
}

/// Length of the maximal non-whitespace prefix of `s`.
pub open spec fn token_prefix_len(s: Seq<char>) -> nat
    decreases s.len(),
{
    if s.len() == 0 || is_ws(s[0]) {
        0
    } else {
        1 + token_prefix_len(s.skip(1))
    }
}

pub proof fn lemma_token_prefix_len_bound(s: Seq<char>)
    ensures
        token_prefix_len(s) <= s.len(),
    decreases s.len(),
{
    if s.len() == 0 || is_ws(s[0]) {
    } else {
        lemma_token_prefix_len_bound(s.skip(1));
    }
}

/// If the first `m` characters of `t` are non-whitespace and position `m`
/// is the end or whitespace, then `m` is exactly the token prefix length.
pub proof fn lemma_token_prefix_len_exact(t: Seq<char>, m: nat)
    requires
        m <= t.len(),
        forall|k: int| 0 <= k < m ==> !is_ws(t[k]),
        m == t.len() || is_ws(t[m as int]),
    ensures
        token_prefix_len(t) == m,
    decreases m,
{
    if m == 0 {
    } else {
        assert(!is_ws(t[0]));
        lemma_token_prefix_len_exact(t.skip(1), (m - 1) as nat);
    }
}

/// The whitespace-separated tokens of `s`, in order; empty tokens never occur.
pub open spec fn split_ws(s: Seq<char>) -> Seq<Seq<char>>
    decreases s.len(),
    via split_ws_decreases
{
    if s.len() == 0 {
        Seq::empty()
    } else if is_ws(s[0]) {
        split_ws(s.skip(1))
    } else {
        seq![s.take(token_prefix_len(s) as int)] + split_ws(s.skip(token_prefix_len(s) as int))
    }
}

#[via_fn]
proof fn split_ws_decreases(s: Seq<char>) {
    if s.len() > 0 && !is_ws(s[0]) {
        lemma_token_prefix_len_bound(s);
        assert(token_prefix_len(s) >= 1);
    }
}

pub fn is_ws_char(c: char) -> (r: bool)
    ensures
        r == is_ws(c),
{
    c == ' ' || c == '\t' || c == '\r' || c == '\n'
}

/// Split a raw input line into whitespace-separated tokens.
pub fn tokenize(line: &str) -> (tokens: Vec<String>)
    ensures
        tokens.deep_view() == split_ws(line@),
{
    let n: usize = line.unicode_len();
    let mut tokens: Vec<String> = Vec::new();
    let mut i: usize = 0;
    proof {
        assert(line@.skip(0) =~= line@);
        assert(tokens.deep_view() + split_ws(line@) =~= split_ws(line@));
    }
    while i < n
        invariant
            i <= n,
            n == line@.len(),
            split_ws(line@) == tokens.deep_view() + split_ws(line@.skip(i as int)),
        decreases n - i,
    {
        let c = line.get_char(i);
        if is_ws_char(c) {
            proof {
                assert(line@.skip(i as int).skip(1) =~= line@.skip(i + 1));
                assert(tokens.deep_view() + split_ws(line@.skip(i + 1)) =~= split_ws(line@));
            }
            i = i + 1;
        } else {
            let start = i;
            let mut j = i + 1;
            while j < n && !is_ws_char(line.get_char(j))
                invariant
                    n == line@.len(),
                    start < j <= n,
                    forall|k: int| start <= k < j ==> !is_ws(line@[k]),
                decreases n - j,
            {
                j = j + 1;
            }
            let tok = String::from_str(line.substring_char(start, j));
            let ghost prev = tokens.deep_view();
            let ghost tv = tok@;
            proof {
                let t = line@.skip(start as int);
                lemma_token_prefix_len_exact(t, (j - start) as nat);
                assert(t.take(j - start) =~= line@.subrange(start as int, j as int));
                assert(t.skip(j - start) =~= line@.skip(j as int));
            }
            tokens.push(tok);
            proof {
                assert(tokens.deep_view() =~= prev.push(tv));
                assert(prev.push(tv) + split_ws(line@.skip(j as int))
                    =~= prev + split_ws(line@.skip(start as int)));
            }
            i = j;
        }
    }
    proof {
        assert(line@.skip(n as int) =~= Seq::<char>::empty());
        assert(tokens.deep_view() + split_ws(line@.skip(n as int)) =~= tokens.deep_view());
    }
    tokens
}

/// Equality of two string slices, decided character by character.
pub fn str_eq(a: &str, b: &str) -> (r: bool)
    ensures
        r == (a@ == b@),
{
    let la = a.unicode_len();
    let lb = b.unicode_len();
    if la != lb {
        return false;
    }
    let mut i: usize = 0;
    while i < la
        invariant
            i <= la,
            la == a@.len(),
            la == b@.len(),
            forall|k: int| 0 <= k < i ==> a@[k] == b@[k],
        decreases la - i,
    {
        if a.get_char(i) != b.get_char(i) {
            return false;
        }
        i = i + 1;
    }
    proof {
        assert(a@ =~= b@);
    }
    true
}

/// `nee` occurs in `hay` starting at position `i`.
pub open spec fn matches_at(hay: Seq<char>, nee: Seq<char>, i: int) -> bool {
    0 <= i && i + nee.len() <= hay.len() && hay.subrange(i, i + nee.len() as int) == nee
}

/// `nee` occurs somewhere in `hay` as a contiguous substring.
pub open spec fn contains_sub(hay: Seq<char>, nee: Seq<char>) -> bool {
    exists|i: int| matches_at(hay, nee, i)
}

/// Whether `nee` occurs at position `i` of `hay`, decided by scanning.
fn matches_at_exec(hay: &str, nee: &str, i: usize, hn: usize, nn: usize) -> (r: bool)
    requires
        hn == hay@.len(),
        nn == nee@.len(),
        i <= hn,
    ensures
        r == matches_at(hay@, nee@, i as int),
{
    if nn > hn - i {
        return false;
    }
    let mut k: usize = 0;
    while k < nn
        invariant
            k <= nn,
            hn == hay@.len(),
            nn == nee@.len(),
            i + nn <= hn,
            forall|t: int| 0 <= t < k ==> hay@[i + t] == nee@[t],
        decreases nn - k,
    {
        if hay.get_char(i + k) != nee.get_char(k) {
            return false;
        }
        k = k + 1;
    }
    proof {
        assert(hay@.subrange(i as int, i + nn as int) =~= nee@);
    }
    true
}

/// Substring search: does `nee` occur anywhere in `hay`?
pub fn str_contains(hay: &str, nee: &str) -> (r: bool)
    ensures
        r == contains_sub(hay@, nee@),
{
    let hn = hay.unicode_len();
    let nn = nee.unicode_len();
    if nn > hn {
        return false;
    }
    if nn == 0 {
        proof {
            assert(hay@.subrange(0, 0) =~= nee@);
            assert(matches_at(hay@, nee@, 0));
        }
        return true;
    }
    let mut i: usize = 0;
    while i <= hn - nn
        invariant
            hn == hay@.len(),
            nn == nee@.len(),
            1 <= nn <= hn,
            i <= hn - nn + 1,
            forall|t: int| 0 <= t < i ==> !matches_at(hay@, nee@, t),
        decreases hn - i,
    {
        if matches_at_exec(hay, nee, i, hn, nn) {
            return true;
        }
        i = i + 1;
    }
    proof {
        assert forall|t: int| !matches_at(hay@, nee@, t) by {
            if 0 <= t && t + nn <= hn {
                assert(!matches_at(hay@, nee@, t));
            }
        }
    }
    false
}

/// The escape sequence that starts a highlighted match.
pub open spec fn mark_start() -> Seq<char> {
    "\x1b[31m"@
}

/// The escape sequence that ends a highlighted match.
pub open spec fn mark_end() -> Seq<char> {
    "\x1b[0m"@
}

/// `s` with every leftmost, non-overlapping occurrence of `p` wrapped in the
/// highlight escape sequences. An empty pattern leaves `s` unchanged.
pub open spec fn mark_spec(s: Seq<char>, p: Seq<char>) -> Seq<char>
    decreases s.len(),
{
    if p.len() == 0 || s.len() < p.len() {
        s
    } else if s.take(p.len() as int) == p {
        mark_start() + p + mark_end() + mark_spec(s.skip(p.len() as int), p)
    } else {
        seq![s[0]] + mark_spec(s.skip(1), p)
    }
}

/// Copy `s`, highlighting every occurrence of `p`.
pub fn mark_pattern(s: &str, p: &str) -> (r: String)
    ensures
        r@ == mark_spec(s@, p@),
{
    let n = s.unicode_len();
    let plen = p.unicode_len();
    let mut out = String::new();
    if plen == 0 {
        let mut whole = String::new();
        whole.append(s);
        return whole;
    }
    let mut i: usize = 0;
    proof {
        assert(s@.skip(0) =~= s@);
    }
    while i < n
        invariant
            i <= n,
            n == s@.len(),
            plen == p@.len(),
            plen > 0,
            mark_spec(s@, p@) == out@ + mark_spec(s@.skip(i as int), p@),
        decreases n - i,
    {
        let ghost tail = s@.skip(i as int);
        if plen <= n - i && matches_at_exec(s, p, i, n, plen) {
            proof {
                assert(tail.take(plen as int) =~= s@.subrange(i as int, i + plen as int));
                assert(tail.skip(plen as int) =~= s@.skip(i + plen));
            }
            out.append("\x1b[31m");
            out.append(p);
            out.append("\x1b[0m");
            i = i + plen;
        } else {
            proof {
                if plen <= tail.len() {
                    assert(tail.take(plen as int) =~= s@.subrange(i as int, i + plen as int));
                }
                assert(tail.skip(1) =~= s@.skip(i + 1));
                assert(seq![s@[i as int]] =~= s@.subrange(i as int, i + 1));
            }
            let piece = s.substring_char(i, i + 1);
            out.append(piece);
            i = i + 1;
        }
    }
    proof {
        assert(s@.skip(n as int) =~= Seq::<char>::empty());
        assert(out@ + mark_spec(s@.skip(n as int), p@) =~= out@);
    }
    out
}

/// Length of the maximal prefix of `s` without a newline.
pub open spec fn line_prefix_len(s: Seq<char>) -> nat
    decreases s.len(),
{
    if s.len() == 0 || s[0] == '\n' {
        0
    } else {
        1 + line_prefix_len(s.skip(1))
    }
}

pub proof fn lemma_line_prefix_len_bound(s: Seq<char>)
    ensures
        line_prefix_len(s) <= s.len(),
    decreases s.len(),
{
    if s.len() == 0 || s[0] == '\n' {
    } else {
        lemma_line_prefix_len_bound(s.skip(1));
    }
}

pub proof fn lemma_line_prefix_len_exact(t: Seq<char>, m: nat)
    requires
        m <= t.len(),
        forall|k: int| 0 <= k < m ==> t[k] != '\n',
        m == t.len() || t[m as int] == '\n',
    ensures
        line_prefix_len(t) == m,
    decreases m,
{
    if m == 0 {
    } else {
        lemma_line_prefix_len_exact(t.skip(1), (m - 1) as nat);
    }
}

/// The lines of `s`: maximal newline-free runs, with the newline a
/// terminator, so a trailing newline adds no empty final line.
pub open spec fn lines_of(s: Seq<char>) -> Seq<Seq<char>>
    decreases s.len(),
    via lines_of_decreases
{
    if s.len() == 0 {
        Seq::empty()
    } else {
        let k = line_prefix_len(s);
        if k == s.len() {
            seq![s]
        } else {
            seq![s.take(k as int)] + lines_of(s.skip(k as int + 1))
        }
    }
}

#[via_fn]
proof fn lines_of_decreases(s: Seq<char>) {
    if s.len() > 0 {
        lemma_line_prefix_len_bound(s);
    }
}

/// Split `s` into its lines.
pub fn split_lines(s: &str) -> (r: Vec<String>)
    ensures
        r.deep_view() == lines_of(s@),
{
    let n = s.unicode_len();
    let mut out: Vec<String> = Vec::new();
    let mut i: usize = 0;
    proof {
        assert(s@.skip(0) =~= s@);
        assert(out.deep_view() + lines_of(s@) =~= lines_of(s@));
    }
    while i < n
        invariant
            i <= n,
            n == s@.len(),
            lines_of(s@) == out.deep_view() + lines_of(s@.skip(i as int)),
        decreases n - i,
    {
        let start = i;
        let mut j = i;
        while j < n && line_char_ok(s.get_char(j))
            invariant
                n == s@.len(),
                start <= j <= n,
                forall|k: int| start <= k < j ==> s@[k] != '\n',
            decreases n - j,
        {
            j = j + 1;
        }
        let piece = String::from_str(s.substring_char(start, j));
        let ghost tail = s@.skip(start as int);
        let ghost prev = out.deep_view();
        let ghost pv = piece@;
        proof {
            lemma_line_prefix_len_exact(tail, (j - start) as nat);
            assert(tail.take(j - start) =~= s@.subrange(start as int, j as int));
        }
        out.push(piece);
        proof {
            assert(out.deep_view() =~= prev.push(pv));
        }
        if j < n {
            proof {
                assert(tail.skip(j - start + 1) =~= s@.skip(j + 1));
                assert(out.deep_view() + lines_of(s@.skip(j + 1)) =~= lines_of(s@));
            }
            i = j + 1;
        } else {
            proof {
                assert(line_prefix_len(tail) == tail.len());
                assert(out.deep_view() + lines_of(s@.skip(n as int)) =~= lines_of(s@));
            }
            i = n;
        }
    }
    proof {
        assert(s@.skip(n as int) =~= Seq::<char>::empty());
        assert(out.deep_view() + lines_of(s@.skip(n as int)) =~= out.deep_view());
    }
    out
}

fn line_char_ok(c: char) -> (r: bool)
    ensures
        r == (c != '\n'),
{
    c != '\n'
}

/// What a search over `items` prints: every item that holds the pattern,
/// highlighted and followed by a newline; items without a match are dropped.
pub open spec fn grep_render_spec(items: Seq<Seq<char>>, p: Seq<char>) -> Seq<char>
    decreases items.len(),
{
    if items.len() == 0 {
        Seq::empty()
    } else {
        (if contains_sub(items[0], p) {
            mark_spec(items[0], p) + "\n"@
        } else {
            Seq::empty()
        }) + grep_render_spec(items.skip(1), p)
    }
}

/// Each part followed by `suffix`, concatenated in order.
pub open spec fn cat_each(parts: Seq<Seq<char>>, suffix: Seq<char>) -> Seq<char>
    decreases parts.len(),
{
    if parts.len() == 0 {
        Seq::empty()
    } else {
        parts[0] + suffix + cat_each(parts.skip(1), suffix)
    }
}

/// `sep` before each part, concatenated in order.
pub open spec fn tail_join(parts: Seq<Seq<char>>, sep: Seq<char>) -> Seq<char>
    decreases parts.len(),
{
    if parts.len() == 0 {
        Seq::empty()
    } else {
        sep + parts[0] + tail_join(parts.skip(1), sep)
    }
}

/// The parts joined by `sep`: nothing for an empty list, no leading or
/// trailing separator otherwise.
pub open spec fn join_with(parts: Seq<Seq<char>>, sep: Seq<char>) -> Seq<char> {
    if parts.len() == 0 {
        Seq::empty()
    } else {
        parts[0] + tail_join(parts.skip(1), sep)
    }
}

/// Join the strings of `v` with separator `sep`.
pub fn join_strings(v: &Vec<String>, sep: &str) -> (r: String)
    ensures
        r@ == join_with(v.deep_view(), sep@),
{
    let mut out = String::new();
    if v.len() == 0 {
        return out;
    }
    out.append(v[0].as_str());
    let mut i: usize = 1;
    proof {
        assert(out@ + tail_join(v.deep_view().skip(1), sep@)
            =~= join_with(v.deep_view(), sep@));
    }
    while i < v.len()
        invariant
            1 <= i <= v.len(),
            join_with(v.deep_view(), sep@) == out@ + tail_join(v.deep_view().skip(i as int), sep@),
        decreases v.len() - i,
    {
        out.append(sep);
        out.append(v[i].as_str());
        proof {
            assert(v.deep_view().skip(i as int).skip(1) =~= v.deep_view().skip(i + 1));
        }
        i = i + 1;
    }
    proof {
        assert(v.deep_view().skip(i as int) =~= Seq::<Seq<char>>::empty());
    }
    out
}

} // verus!
