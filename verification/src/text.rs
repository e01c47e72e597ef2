//! Verified text primitives the converter is built on: splitting on a
//! separator character, whitespace tokenization, line splitting, trimming
//! and substring search.

use vstd::prelude::*;
use crate::is_ws;
use crate::ws_char;

verus! {

// ---------------------------------------------------------------------------
// Splitting on a separator character, as `str::split(char)` does: there is
// always at least one segment, and empty segments are kept.
// ---------------------------------------------------------------------------

/// The segments of `s` between occurrences of `sep`.
pub open spec fn split_on(s: Seq<char>, sep: char) -> Seq<Seq<char>>
    decreases s.len(),
{
    if s.len() == 0 {
        seq![Seq::<char>::empty()]
    } else if s[0] == sep {
        seq![Seq::<char>::empty()] + split_on(s.skip(1), sep)
    } else {
        let rest = split_on(s.skip(1), sep);
        seq![seq![s[0]] + rest[0]] + rest.skip(1)
    }
}

pub proof fn lemma_split_on_len(s: Seq<char>, sep: char)
    ensures
        split_on(s, sep).len() >= 1,
    decreases s.len(),
{
    if s.len() == 0 {
    } else if s[0] == sep {
        lemma_split_on_len(s.skip(1), sep);
    } else {
        lemma_split_on_len(s.skip(1), sep);
    }
}

/// A separator-free string is a single segment.
pub proof fn lemma_split_on_no_sep(s: Seq<char>, sep: char)
    requires
        forall|i: int| 0 <= i < s.len() ==> s[i] != sep,
    ensures
        split_on(s, sep) == seq![s],
    decreases s.len(),
{
    if s.len() == 0 {
        assert(split_on(s, sep) =~~= seq![s]);
    } else {
        lemma_split_on_no_sep(s.skip(1), sep);
        let rest = split_on(s.skip(1), sep);
        assert(rest == seq![s.skip(1)]);
        assert(seq![s[0]] + s.skip(1) =~= s);
        assert(rest.skip(1) =~~= Seq::<Seq<char>>::empty());
        assert(split_on(s, sep) =~~= seq![s]);
    }
}

/// Splitting at the first separator: the part before it is the first
/// segment, and the rest of the segments are those of the part after it.
pub proof fn lemma_split_on_first_sep(s: Seq<char>, sep: char, i: int)
    requires
        0 <= i < s.len(),
        s[i] == sep,
        forall|j: int| 0 <= j < i ==> s[j] != sep,
    ensures
        split_on(s, sep) == seq![s.take(i)] + split_on(s.skip(i + 1), sep),
    decreases i,
{
    if i == 0 {
        assert(s.take(0) =~= Seq::<char>::empty());
        assert(split_on(s, sep) =~~= seq![s.take(0)] + split_on(s.skip(1), sep));
    } else {
        lemma_split_on_first_sep(s.skip(1), sep, i - 1);
        let rest = split_on(s.skip(1), sep);
        assert(s.skip(1).take(i - 1) =~= s.subrange(1, i));
        assert(s.skip(1).skip(i) =~= s.skip(i + 1));
        assert(rest == seq![s.subrange(1, i)] + split_on(s.skip(i + 1), sep));
        assert(rest[0] == s.subrange(1, i));
        assert(seq![s[0]] + s.subrange(1, i) =~= s.take(i));
        assert(rest.skip(1) =~~= split_on(s.skip(i + 1), sep));
        assert(split_on(s, sep) =~~= seq![s.take(i)] + split_on(s.skip(i + 1), sep));
    }
}

/// Splits `s` at every occurrence of `sep`, keeping empty segments,
/// exactly as `split_on` describes.
pub fn split_char(s: &str, sep: char) -> (r: Vec<String>)
    ensures
        r.deep_view() == split_on(s@, sep),
{
    let n = s.unicode_len();
    let mut segs: Vec<String> = Vec::new();
    let mut start: usize = 0;
    let mut i: usize = 0;
    proof {
        assert(s@.skip(0) =~= s@);
        assert(segs.deep_view() =~~= Seq::<Seq<char>>::empty());
    }
    while i < n
        invariant
            start <= i <= n,
            n == s@.len(),
            forall|j: int| start <= j < i ==> s@[j] != sep,
            split_on(s@, sep) == segs.deep_view() + split_on(s@.skip(start as int), sep),
        decreases n - i,
    {
        let c = s.get_char(i);
        if c == sep {
            let seg = s.substring_char(start, i);
            let ghost old_segs = segs.deep_view();
            segs.push(String::from_str(seg));
            proof {
                let tail = s@.skip(start as int);
                lemma_split_on_first_sep(tail, sep, i - start);
                assert(tail.take(i - start) =~= s@.subrange(start as int, i as int));
                assert(tail.skip(i - start + 1) =~= s@.skip(i + 1));
                assert(segs.deep_view() =~~= old_segs + seq![s@.subrange(
                    start as int,
                    i as int,
                )]);
                assert((old_segs + seq![s@.subrange(start as int, i as int)]) + split_on(
                    s@.skip(i + 1),
                    sep,
                ) =~~= old_segs + (seq![s@.subrange(start as int, i as int)] + split_on(
                    s@.skip(i + 1),
                    sep,
                )));
            }
            start = i + 1;
        }
        i = i + 1;
    }
    let seg = s.substring_char(start, n);
    let ghost old_segs = segs.deep_view();
    segs.push(String::from_str(seg));
    proof {
        let tail = s@.skip(start as int);
        lemma_split_on_no_sep(tail, sep);
        assert(tail =~= s@.subrange(start as int, n as int));
        assert(segs.deep_view() =~~= old_segs + seq![tail]);
        assert(old_segs + seq![tail] =~~= old_segs + split_on(tail, sep));
    }
    segs
}

// ---------------------------------------------------------------------------
// Whitespace tokenization, as `str::split_ascii_whitespace` does: runs of
// whitespace separate tokens, and no token is empty.
// ---------------------------------------------------------------------------

/// The maximal whitespace-free tokens of `s`, in order.
pub open spec fn split_ws(s: Seq<char>) -> Seq<Seq<char>>
    decreases s.len(),
{
    if s.len() == 0 {
        Seq::<Seq<char>>::empty()
    } else if is_ws(s[0]) {
        split_ws(s.skip(1))
    } else {
        let rest = split_ws(s.skip(1));
        if s.len() > 1 && !is_ws(s[1]) {
            seq![seq![s[0]] + rest[0]] + rest.skip(1)
        } else {
            seq![seq![s[0]]] + rest
        }
    }
}

/// A fully-whitespace string has no tokens.
pub proof fn lemma_split_ws_all_ws(s: Seq<char>)
    requires
        forall|j: int| 0 <= j < s.len() ==> is_ws(s[j]),
    ensures
        split_ws(s) == Seq::<Seq<char>>::empty(),
    decreases s.len(),
{
    if s.len() > 0 {
        lemma_split_ws_all_ws(s.skip(1));
    }
}

/// A token at the front: if the first `k` characters are whitespace-free
/// and the token ends there (end of string or whitespace), it is the first
/// token, and the rest follow.
pub proof fn lemma_split_ws_token(s: Seq<char>, k: int)
    requires
        0 < k <= s.len(),
        forall|j: int| 0 <= j < k ==> !is_ws(s[j]),
        k == s.len() || is_ws(s[k]),
    ensures
        split_ws(s) == seq![s.take(k)] + split_ws(s.skip(k)),
    decreases k,
{
    if k == 1 {
        assert(seq![s[0]] =~= s.take(1));
        if s.len() > 1 && !is_ws(s[1]) {
            assert(false);
        }
        assert(split_ws(s) =~~= seq![s.take(1)] + split_ws(s.skip(1)));
    } else {
        lemma_split_ws_token(s.skip(1), k - 1);
        let rest = split_ws(s.skip(1));
        assert(s.skip(1).take(k - 1) =~= s.subrange(1, k));
        assert(s.skip(1).skip(k - 1) =~= s.skip(k));
        assert(rest == seq![s.subrange(1, k)] + split_ws(s.skip(k)));
        assert(rest[0] == s.subrange(1, k));
        assert(seq![s[0]] + s.subrange(1, k) =~= s.take(k));
        assert(rest.skip(1) =~~= split_ws(s.skip(k)));
        assert(!is_ws(s[1]));
        assert(split_ws(s) =~~= seq![s.take(k)] + split_ws(s.skip(k)));
    }
}

/// Splits `s` into its whitespace-separated tokens, exactly as `split_ws`
/// describes.
pub fn split_whitespace_tokens(s: &str) -> (r: Vec<String>)
    ensures
        r.deep_view() == split_ws(s@),
{
    let n = s.unicode_len();
    let mut toks: Vec<String> = Vec::new();
    let mut i: usize = 0;
    proof {
        assert(s@.skip(0) =~= s@);
        assert(toks.deep_view() =~~= Seq::<Seq<char>>::empty());
    }
    while i < n
        invariant
            i <= n,
            n == s@.len(),
            split_ws(s@) == toks.deep_view() + split_ws(s@.skip(i as int)),
        decreases n - i,
    {
        let c = s.get_char(i);
        if ws_char(c) {
            proof {
                assert(s@.skip(i as int).skip(1) =~= s@.skip(i + 1));
            }
            i = i + 1;
        } else {
            let start = i;
            let mut j = i + 1;
            while j < n && !ws_char(s.get_char(j))
                invariant
                    start < j <= n,
                    n == s@.len(),
                    forall|m: int| start <= m < j ==> !is_ws(s@[m]),
                decreases n - j,
            {
                j = j + 1;
            }
            let tok = s.substring_char(start, j);
            let ghost old_toks = toks.deep_view();
            toks.push(String::from_str(tok));
            proof {
                let tail = s@.skip(start as int);
                lemma_split_ws_token(tail, j - start);
                assert(tail.take(j - start) =~= s@.subrange(start as int, j as int));
                assert(tail.skip(j - start) =~= s@.skip(j as int));
                assert(toks.deep_view() =~~= old_toks + seq![s@.subrange(
                    start as int,
                    j as int,
                )]);
                assert((old_toks + seq![s@.subrange(start as int, j as int)]) + split_ws(
                    s@.skip(j as int),
                ) =~~= old_toks + (seq![s@.subrange(start as int, j as int)] + split_ws(
                    s@.skip(j as int),
                )));
            }
            i = j;
        }
    }
    proof {
        assert(s@.skip(n as int) =~= Seq::<char>::empty());
        assert(toks.deep_view() + split_ws(s@.skip(n as int)) =~~= toks.deep_view());
    }
    toks
}

// ---------------------------------------------------------------------------
// Trimming surrounding whitespace.
// ---------------------------------------------------------------------------

/// `s` without its leading whitespace.
pub open spec fn trim_start_s(s: Seq<char>) -> Seq<char>
    decreases s.len(),
{
    if s.len() > 0 && is_ws(s[0]) {
        trim_start_s(s.skip(1))
    } else {
        s
    }
}

/// `s` without its trailing whitespace.
pub open spec fn trim_end_s(s: Seq<char>) -> Seq<char>
    decreases s.len(),
{
    if s.len() > 0 && is_ws(s.last()) {
        trim_end_s(s.drop_last())
    } else {
        s
    }
}

/// `s` without surrounding whitespace.
pub open spec fn trimmed(s: Seq<char>) -> Seq<char> {
    trim_end_s(trim_start_s(s))
}

pub proof fn lemma_trim_start(s: Seq<char>, a: int)
    requires
        0 <= a <= s.len(),
        forall|k: int| 0 <= k < a ==> is_ws(s[k]),
        a == s.len() || !is_ws(s[a]),
    ensures
        trim_start_s(s) == s.skip(a),
    decreases a,
{
    if a == 0 {
        assert(s.skip(0) =~= s);
    } else {
        lemma_trim_start(s.skip(1), a - 1);
        assert(s.skip(1).skip(a - 1) =~= s.skip(a));
    }
}

pub proof fn lemma_trim_end(s: Seq<char>, b: int)
    requires
        0 <= b <= s.len(),
        forall|k: int| b <= k < s.len() ==> is_ws(s[k]),
        b == 0 || !is_ws(s[b - 1]),
    ensures
        trim_end_s(s) == s.take(b),
    decreases s.len() - b,
{
    if b == s.len() {
        assert(s.take(b) =~= s);
    } else {
        lemma_trim_end(s.drop_last(), b);
        assert(s.drop_last().take(b) =~= s.take(b));
    }
}

/// Strips surrounding whitespace, exactly as `trimmed` describes.
pub fn trim_str<'a>(s: &'a str) -> (r: &'a str)
    ensures
        r@ == trimmed(s@),
{
    let n = s.unicode_len();
    let mut a: usize = 0;
    while a < n && ws_char(s.get_char(a))
        invariant
            a <= n,
            n == s@.len(),
            forall|k: int| 0 <= k < a ==> is_ws(s@[k]),
        decreases n - a,
    {
        a = a + 1;
    }
    let mut b: usize = n;
    while b > a && ws_char(s.get_char(b - 1))
        invariant
            a <= b <= n,
            n == s@.len(),
            forall|k: int| b <= k < n ==> is_ws(s@[k]),
        decreases b,
    {
        b = b - 1;
    }
    proof {
        lemma_trim_start(s@, a as int);
        let t = s@.skip(a as int);
        lemma_trim_end(t, b - a);
        assert(t.take(b - a) =~= s@.subrange(a as int, b as int));
    }
    s.substring_char(a, b)
}

// ---------------------------------------------------------------------------
// Substring search.
// ---------------------------------------------------------------------------

/// `sub` occurs in `s` at position `i`.
pub open spec fn match_at(s: Seq<char>, sub: Seq<char>, i: int) -> bool {
    0 <= i && i + sub.len() <= s.len() && s.subrange(i, i + sub.len()) == sub
}

/// `sub` occurs somewhere in `s`.
pub open spec fn has_substr(s: Seq<char>, sub: Seq<char>) -> bool {
    exists|i: int| match_at(s, sub, i)
}

/// Whether `sub` occurs in `s` starting at `i`.
fn match_at_exec(s: &str, sub: &str, i: usize) -> (r: bool)
    requires
        i + sub@.len() <= s@.len(),
        s@.len() <= usize::MAX,
    ensures
        r == match_at(s@, sub@, i as int),
{
    let m = sub.unicode_len();
    let mut j: usize = 0;
    while j < m
        invariant
            j <= m,
            m == sub@.len(),
            i + m <= s@.len(),
            s@.len() <= usize::MAX,
            forall|k: int| 0 <= k < j ==> s@[i + k] == sub@[k],
        decreases m - j,
    {
        if s.get_char(i + j) != sub.get_char(j) {
            proof {
                assert(s@.subrange(i as int, i + m)[j as int] != sub@[j as int]);
            }
            return false;
        }
        j = j + 1;
    }
    proof {
        assert(s@.subrange(i as int, i + m) =~= sub@);
    }
    true
}

/// The position of the first occurrence of `sub` in `s`, if any.
pub fn find_first(s: &str, sub: &str) -> (r: Option<usize>)
    ensures
        match r {
            Some(i) => match_at(s@, sub@, i as int) && forall|j: int|
                0 <= j < i ==> !match_at(s@, sub@, j),
            None => !has_substr(s@, sub@),
        },
{
    let n = s.unicode_len();
    let m = sub.unicode_len();
    if m > n {
        proof {
            assert(forall|i: int| !match_at(s@, sub@, i));
        }
        return None;
    }
    if m == 0 {
        proof {
            assert(s@.subrange(0, 0) =~= sub@);
        }
        return Some(0);
    }
    let mut i: usize = 0;
    while i <= n - m
        invariant
            0 < m <= n,
            n == s@.len(),
            m == sub@.len(),
            i <= n - m + 1,
            forall|j: int| 0 <= j < i ==> !match_at(s@, sub@, j),
        decreases n - i,
    {
        if match_at_exec(s, sub, i) {
            return Some(i);
        }
        i = i + 1;
    }
    proof {
        assert(forall|j: int| j > n - m ==> !match_at(s@, sub@, j));
    }
    None
}

/// Whether `sub` occurs anywhere in `s`.
pub fn contains_substr(s: &str, sub: &str) -> (r: bool)
    ensures
        r == has_substr(s@, sub@),
{
    find_first(s, sub).is_some()
}

// ---------------------------------------------------------------------------
// Line splitting, as the converter reads its input: lines end at a newline,
// an optional final newline closes the last line, and a carriage return at
// the end of a line is dropped.
// ---------------------------------------------------------------------------

/// `s` without a single trailing carriage return.
pub open spec fn strip_cr(s: Seq<char>) -> Seq<char> {
    if s.len() > 0 && s.last() == '\r' {
        s.drop_last()
    } else {
        s
    }
}

/// The lines of `s`.
pub open spec fn lines_of(s: Seq<char>) -> Seq<Seq<char>> {
    if s.len() == 0 {
        Seq::<Seq<char>>::empty()
    } else {
        let parts = split_on(s, '\n');
        let closed = if parts.last().len() == 0 {
            parts.drop_last()
        } else {
            parts
        };
        closed.map_values(|l: Seq<char>| strip_cr(l))
    }
}

/// Splits `s` into lines, exactly as `lines_of` describes.
pub fn split_lines(s: &str) -> (r: Vec<String>)
    ensures
        r.deep_view() == lines_of(s@),
{
    let mut out: Vec<String> = Vec::new();
    if s.unicode_len() == 0 {
        proof {
            assert(out.deep_view() =~~= lines_of(s@));
        }
        return out;
    }
    let mut parts = split_char(s, '\n');
    proof {
        lemma_split_on_len(s@, '\n');
    }
    let last_len = parts[parts.len() - 1].as_str().unicode_len();
    if last_len == 0 {
        let ghost before = parts.deep_view();
        parts.pop();
        proof {
            assert(parts.deep_view() =~~= before.drop_last());
        }
    }
    let ghost closed = parts.deep_view();
    let mut k: usize = 0;
    while k < parts.len()
        invariant
            k <= parts.len(),
            parts.deep_view() == closed,
            out.deep_view() =~~= closed.take(k as int).map_values(
                |l: Seq<char>| strip_cr(l),
            ),
        decreases parts.len() - k,
    {
        let line = &parts[k];
        let ln = line.as_str().unicode_len();
        let ghost old_out = out.deep_view();
        if ln > 0 && line.as_str().get_char(ln - 1) == '\r' {
            let stripped = line.as_str().substring_char(0, ln - 1);
            proof {
                assert(closed[k as int] == line@);
                assert(strip_cr(closed[k as int]) =~= stripped@);
            }
            out.push(String::from_str(stripped));
        } else {
            proof {
                assert(closed[k as int] == line@);
                assert(strip_cr(closed[k as int]) == line@);
            }
            out.push(line.clone());
        }
        proof {
            assert(out.deep_view() =~~= old_out.push(strip_cr(closed[k as int])));
            assert(closed.take(k + 1).map_values(|l: Seq<char>| strip_cr(l)) =~~= closed.take(
                k as int,
            ).map_values(|l: Seq<char>| strip_cr(l)).push(strip_cr(closed[k as int])));
        }
        k = k + 1;
    }
    proof {
        assert(closed.take(parts.len() as int) =~= closed);
        assert(out.deep_view() =~~= lines_of(s@));
    }
    out
}

} // verus!
