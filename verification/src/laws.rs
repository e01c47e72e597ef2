//! Laws of the converter, proved once and for all inputs.

use vstd::prelude::*;
use crate::is_digit;
use crate::amount::payload_of;
use crate::amount::valid_decimal;
use crate::date::month_abbr;
use crate::date::month_of;
use crate::date::month_code;
use crate::error::ErrorView;
use crate::payee::kw_to;
use crate::payee::kw_by;
use crate::payee::kw_from;
use crate::payee::normalize_payee;
use crate::pipeline::convert_all;
use crate::row::TransactionV;
use crate::row::convert_result;
use crate::text::has_substr;
use crate::text::match_at;
use crate::text::split_on;
use crate::text::split_ws;

verus! {

/// A raw amount field the parser accepts: nonempty, with a valid decimal
/// payload after the sign and the currency symbol.
pub open spec fn valid_amount_field(f: Seq<char>) -> bool {
    f.len() > 0 && valid_decimal(payload_of(f))
}

/// A raw date field the converter accepts, with a 1-or-2-digit day and a
/// 4-digit year (the shape the bank export uses).
pub open spec fn valid_date_field(f: Seq<char>) -> bool {
    let parts = split_ws(f);
    &&& parts.len() == 3
    &&& month_of(parts[1]) is Some
    &&& 1 <= parts[0].len() <= 2
    &&& forall|i: int| 0 <= i < parts[0].len() ==> is_digit(parts[0][i])
    &&& parts[2].len() == 4
    &&& forall|i: int| 0 <= i < parts[2].len() ==> is_digit(parts[2][i])
}

/// A fully valid data line: 4 fields, with acceptable amount and date.
pub open spec fn valid_line(line: Seq<char>) -> bool {
    let fields = split_on(line, ',');
    &&& fields.len() == 4
    &&& valid_amount_field(fields[2])
    &&& valid_date_field(fields[0])
}

/// A date of the shape `\d{1,2}/\d{2}/\d{4}`.
pub open spec fn date_shape(d: Seq<char>) -> bool {
    let dl = d.len() - 8;
    &&& 9 <= d.len() <= 10
    &&& forall|i: int| 0 <= i < dl ==> is_digit(d[i])
    &&& d[dl] == '/'
    &&& is_digit(d[dl + 1]) && is_digit(d[dl + 2])
    &&& d[dl + 3] == '/'
    &&& forall|i: int| dl + 4 <= i < d.len() ==> is_digit(d[i])
}

/// Law: a valid 4-field line always converts, and the transaction's date
/// has the shape `\d{1,2}/\d{2}/\d{4}`.
pub proof fn lemma_valid_line_converts(line: Seq<char>)
    requires
        valid_line(line),
    ensures
        convert_result(line) is Ok,
        date_shape(convert_result(line)->Ok_0.date),
{
    let fields = split_on(line, ',');
    let parts = split_ws(fields[0]);
    let m = month_of(parts[1])->Some_0;
    assert(is_digit(month_code(m)[0]) && is_digit(month_code(m)[1]));
    let d = convert_result(line)->Ok_0.date;
    assert(d == parts[0] + seq!['/'] + month_code(m) + seq!['/'] + parts[2]);
    let dl = parts[0].len() as int;
    assert(d.len() == dl + 8);
    assert(forall|i: int| 0 <= i < dl ==> d[i] == parts[0][i]);
    assert(d[dl] == '/');
    assert(d[dl + 1] == month_code(m)[0]);
    assert(d[dl + 2] == month_code(m)[1]);
    assert(d[dl + 3] == '/');
    assert(forall|i: int| dl + 4 <= i < d.len() ==> d[i] == parts[2][i - dl - 4]);
}

/// Law: a converted line's amount is negative exactly when the raw amount
/// field's first character is `-`.
pub proof fn lemma_sign_follows_first_char(line: Seq<char>)
    requires
        convert_result(line) is Ok,
    ensures
        convert_result(line)->Ok_0.amount.negative <==> split_on(line, ',')[2][0] == '-',
{
}

/// Law: a payee field holding none of the three directional keywords
/// passes through unchanged.
pub proof fn lemma_payee_passthrough(s: Seq<char>)
    requires
        !has_substr(s, kw_to()),
        !has_substr(s, kw_by()),
        !has_substr(s, kw_from()),
    ensures
        normalize_payee(s) == s,
{
}

/// Law: a line with any field count other than 4 is rejected with
/// `InvalidFieldCount`, carrying the line.
pub proof fn lemma_field_count_rejected(line: Seq<char>)
    requires
        split_on(line, ',').len() != 4,
    ensures
        convert_result(line) == Err::<TransactionV, ErrorView>(
            ErrorView::InvalidFieldCount(line),
        ),
{
}

/// Law: the month table round-trips — a token that is exactly one of the
/// 12 fixed abbreviations maps to that month, not to an earlier table
/// entry.
pub proof fn lemma_month_roundtrip(m: int)
    requires
        1 <= m <= 12,
    ensures
        month_of(month_abbr(m)) == Some(m),
{
    let a = month_abbr(m);
    assert(match_at(a, a, 0)) by {
        assert(a.subrange(0, 3) =~= a);
    }
    assert forall|k: int| 1 <= k <= 12 && k != m implies !has_substr(a, month_abbr(k)) by {
        if has_substr(a, month_abbr(k)) {
            let i = choose|i: int| match_at(a, month_abbr(k), i);
            assert(i == 0);
            assert(a.subrange(0, 3) =~= a);
            assert(a == month_abbr(k));
            assert(a[0] == month_abbr(k)[0] && a[1] == month_abbr(k)[1] && a[2] == month_abbr(
                k,
            )[2]);
            assert(false);
        }
    }
}

/// Law: one failing line aborts the whole conversion — the result of the
/// run is an error, never a partial output.
pub proof fn lemma_first_error_aborts(ls: Seq<Seq<char>>, j: int)
    requires
        0 <= j < ls.len(),
        convert_result(ls[j]) is Err,
    ensures
        convert_all(ls) is Err,
    decreases j,
{
    if j > 0 {
        if convert_result(ls[0]) is Ok {
            assert(ls.skip(1)[j - 1] == ls[j]);
            lemma_first_error_aborts(ls.skip(1), j - 1);
        }
    }
}

} // verus!
