//! Payee normalization: a known directional keyword and everything before
//! it are stripped, keeping the segment after the keyword's last
//! occurrence, trimmed. The keywords are tried in fixed priority order;
//! with none present the field passes through unchanged. A best-effort
//! heuristic, not a guaranteed-correct parse: a description holding two
//! different keywords is stripped by the first keyword type found only.

use vstd::prelude::*;
use crate::text::has_substr;
use crate::text::match_at;
use crate::text::contains_substr;
use crate::text::find_first;
use crate::text::trimmed;
use crate::text::trim_str;

verus! {

pub open spec fn kw_to() -> Seq<char> {
    seq![' ', 't', 'o', ' ']
}

pub open spec fn kw_by() -> Seq<char> {
    seq![' ', 'b', 'y', ' ']
}

pub open spec fn kw_from() -> Seq<char> {
    seq![' ', 'f', 'r', 'o', 'm', ' ']
}

/// The last segment of splitting `s` on `k`: the keyword is cut out at
/// every occurrence, scanning from the left, and what follows the final
/// cut remains.
pub open spec fn last_split_segment(s: Seq<char>, k: Seq<char>) -> Seq<char>
    recommends
        k.len() > 0,
    decreases s.len(),
{
    if !has_substr(s, k) {
        s
    } else if k.len() > 0 && match_at(s, k, 0) {
        last_split_segment(s.skip(k.len() as int), k)
    } else if s.len() > 0 {
        last_split_segment(s.skip(1), k)
    } else {
        s
    }
}

/// Cutting at the first occurrence: the last segment of `s` is the last
/// segment of what follows that occurrence.
proof fn lemma_last_split_first_match(s: Seq<char>, k: Seq<char>, i: int)
    requires
        k.len() > 0,
        match_at(s, k, i),
        forall|j: int| 0 <= j < i ==> !match_at(s, k, j),
    ensures
        last_split_segment(s, k) == last_split_segment(s.skip(i + k.len()), k),
    decreases i,
{
    if i == 0 {
    } else {
        assert(match_at(s.skip(1), k, i - 1)) by {
            assert(s.skip(1).subrange(i - 1, i - 1 + k.len()) =~= s.subrange(i, i + k.len()));
        }
        assert forall|j: int| 0 <= j < i - 1 implies !match_at(s.skip(1), k, j) by {
            if match_at(s.skip(1), k, j) {
                assert(s.subrange(j + 1, j + 1 + k.len()) =~= s.skip(1).subrange(
                    j,
                    j + k.len(),
                ));
                assert(match_at(s, k, j + 1));
            }
        }
        lemma_last_split_first_match(s.skip(1), k, i - 1);
        assert(s.skip(1).skip(i - 1 + k.len()) =~= s.skip(i + k.len()));
        assert(!match_at(s, k, 0));
    }
}

/// The segment of `s` after the last occurrence of `k`, exactly as
/// `last_split_segment` describes; `s` itself when `k` does not occur.
fn tail_after_keyword<'a>(s: &'a str, k: &str) -> (r: &'a str)
    requires
        k@.len() > 0,
    ensures
        r@ == last_split_segment(s@, k@),
{
    let mut cur: &'a str = s;
    let mut found = find_first(cur, k);
    while found.is_some()
        invariant
            k@.len() > 0,
            last_split_segment(s@, k@) == last_split_segment(cur@, k@),
            match found {
                Some(i) => match_at(cur@, k@, i as int) && forall|j: int|
                    0 <= j < i ==> !match_at(cur@, k@, j),
                None => !has_substr(cur@, k@),
            },
        decreases cur@.len(),
    {
        let i = found.unwrap();
        let kl = k.unicode_len();
        let cl = cur.unicode_len();
        proof {
            lemma_last_split_first_match(cur@, k@, i as int);
            assert(cur@.subrange(i + kl, cl as int) =~= cur@.skip(i + kl));
        }
        cur = cur.substring_char(i + kl, cl);
        found = find_first(cur, k);
    }
    cur
}

/// The normalized payee: the segment after the last occurrence of the
/// first keyword found, trimmed; the field itself with no keyword present.
pub open spec fn normalize_payee(s: Seq<char>) -> Seq<char> {
    if has_substr(s, kw_to()) {
        trimmed(last_split_segment(s, kw_to()))
    } else if has_substr(s, kw_by()) {
        trimmed(last_split_segment(s, kw_by()))
    } else if has_substr(s, kw_from()) {
        trimmed(last_split_segment(s, kw_from()))
    } else {
        s
    }
}

/// Strips the directional prefix from a raw payee field, exactly as
/// `normalize_payee` describes. The result is never `None`: splitting
/// always leaves a segment.
pub fn remove_payee_prefix<'a>(payee: &'a str) -> (r: Option<&'a str>)
    ensures
        r matches Some(t) && t@ == normalize_payee(payee@),
{
    proof {
        reveal_strlit(" to ");
        reveal_strlit(" by ");
        reveal_strlit(" from ");
        assert(" to "@ =~= kw_to());
        assert(" by "@ =~= kw_by());
        assert(" from "@ =~= kw_from());
    }
    if contains_substr(payee, " to ") {
        Some(trim_str(tail_after_keyword(payee, " to ")))
    } else if contains_substr(payee, " by ") {
        Some(trim_str(tail_after_keyword(payee, " by ")))
    } else if contains_substr(payee, " from ") {
        Some(trim_str(tail_after_keyword(payee, " from ")))
    } else {
        Some(payee)
    }
}

} // verus!
