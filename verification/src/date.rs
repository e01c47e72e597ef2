//! Date reformatting: a `DAY MONTH YEAR` token becomes `DAY/MM/YEAR`.
//! The month abbreviation is looked up in a fixed ordered table, first
//! match wins; the day and the year pass through unchanged.

use vstd::prelude::*;
use crate::error::ConvertError;
use crate::error::ErrorView;
use crate::text::has_substr;
use crate::text::contains_substr;
use crate::text::split_ws;
use crate::text::split_whitespace_tokens;

verus! {

/// The fixed table of month abbreviations, 1-based.
pub open spec fn month_abbr(m: int) -> Seq<char> {
    if m == 1 {
        seq!['J', 'A', 'N']
    } else if m == 2 {
        seq!['F', 'E', 'B']
    } else if m == 3 {
        seq!['M', 'A', 'R']
    } else if m == 4 {
        seq!['A', 'P', 'R']
    } else if m == 5 {
        seq!['M', 'A', 'Y']
    } else if m == 6 {
        seq!['J', 'U', 'N']
    } else if m == 7 {
        seq!['J', 'U', 'L']
    } else if m == 8 {
        seq!['A', 'U', 'G']
    } else if m == 9 {
        seq!['S', 'E', 'P']
    } else if m == 10 {
        seq!['O', 'C', 'T']
    } else if m == 11 {
        seq!['N', 'O', 'V']
    } else {
        seq!['D', 'E', 'C']
    }
}

/// The 1-based month whose abbreviation occurs in the token, scanning the
/// table in order, or nothing.
pub open spec fn month_of(s: Seq<char>) -> Option<int> {
    if has_substr(s, month_abbr(1)) {
        Some(1)
    } else if has_substr(s, month_abbr(2)) {
        Some(2)
    } else if has_substr(s, month_abbr(3)) {
        Some(3)
    } else if has_substr(s, month_abbr(4)) {
        Some(4)
    } else if has_substr(s, month_abbr(5)) {
        Some(5)
    } else if has_substr(s, month_abbr(6)) {
        Some(6)
    } else if has_substr(s, month_abbr(7)) {
        Some(7)
    } else if has_substr(s, month_abbr(8)) {
        Some(8)
    } else if has_substr(s, month_abbr(9)) {
        Some(9)
    } else if has_substr(s, month_abbr(10)) {
        Some(10)
    } else if has_substr(s, month_abbr(11)) {
        Some(11)
    } else if has_substr(s, month_abbr(12)) {
        Some(12)
    } else {
        None
    }
}

/// The two-digit numeral of a month.
pub open spec fn month_code(m: int) -> Seq<char> {
    if m == 1 {
        seq!['0', '1']
    } else if m == 2 {
        seq!['0', '2']
    } else if m == 3 {
        seq!['0', '3']
    } else if m == 4 {
        seq!['0', '4']
    } else if m == 5 {
        seq!['0', '5']
    } else if m == 6 {
        seq!['0', '6']
    } else if m == 7 {
        seq!['0', '7']
    } else if m == 8 {
        seq!['0', '8']
    } else if m == 9 {
        seq!['0', '9']
    } else if m == 10 {
        seq!['1', '0']
    } else if m == 11 {
        seq!['1', '1']
    } else {
        seq!['1', '2']
    }
}

/// What reformatting a raw date field yields.
pub open spec fn date_result(s: Seq<char>) -> Result<Seq<char>, ErrorView> {
    let parts = split_ws(s);
    if parts.len() != 3 {
        Err(ErrorView::MalformedDateToken)
    } else {
        match month_of(parts[1]) {
            Some(m) => Ok(parts[0] + seq!['/'] + month_code(m) + seq!['/'] + parts[2]),
            None => Err(ErrorView::UnknownMonthAbbreviation),
        }
    }
}

/// `date_result` with the two failures folded together.
pub open spec fn date_of(s: Seq<char>) -> Option<Seq<char>> {
    match date_result(s) {
        Ok(d) => Some(d),
        Err(_) => None,
    }
}

/// Maps a month token to its two-digit numeral, exactly as `month_of` and
/// `month_code` describe.
pub fn convert_month(input_month: &str) -> (r: Option<String>)
    ensures
        month_of(input_month@) matches Some(m) ==> r matches Some(x) && x@ == month_code(m),
        month_of(input_month@) is None ==> r is None,
{
    proof {
        reveal_strlit("JAN");
        reveal_strlit("FEB");
        reveal_strlit("MAR");
        reveal_strlit("APR");
        reveal_strlit("MAY");
        reveal_strlit("JUN");
        reveal_strlit("JUL");
        reveal_strlit("AUG");
        reveal_strlit("SEP");
        reveal_strlit("OCT");
        reveal_strlit("NOV");
        reveal_strlit("DEC");
        assert("JAN"@ =~= month_abbr(1));
        assert("FEB"@ =~= month_abbr(2));
        assert("MAR"@ =~= month_abbr(3));
        assert("APR"@ =~= month_abbr(4));
        assert("MAY"@ =~= month_abbr(5));
        assert("JUN"@ =~= month_abbr(6));
        assert("JUL"@ =~= month_abbr(7));
        assert("AUG"@ =~= month_abbr(8));
        assert("SEP"@ =~= month_abbr(9));
        assert("OCT"@ =~= month_abbr(10));
        assert("NOV"@ =~= month_abbr(11));
        assert("DEC"@ =~= month_abbr(12));
        reveal_strlit("01");
        reveal_strlit("02");
        reveal_strlit("03");
        reveal_strlit("04");
        reveal_strlit("05");
        reveal_strlit("06");
        reveal_strlit("07");
        reveal_strlit("08");
        reveal_strlit("09");
        reveal_strlit("10");
        reveal_strlit("11");
        reveal_strlit("12");
        assert("01"@ =~= month_code(1));
        assert("02"@ =~= month_code(2));
        assert("03"@ =~= month_code(3));
        assert("04"@ =~= month_code(4));
        assert("05"@ =~= month_code(5));
        assert("06"@ =~= month_code(6));
        assert("07"@ =~= month_code(7));
        assert("08"@ =~= month_code(8));
        assert("09"@ =~= month_code(9));
        assert("10"@ =~= month_code(10));
        assert("11"@ =~= month_code(11));
        assert("12"@ =~= month_code(12));
    }
    if contains_substr(input_month, "JAN") {
        Some(String::from_str("01"))
    } else if contains_substr(input_month, "FEB") {
        Some(String::from_str("02"))
    } else if contains_substr(input_month, "MAR") {
        Some(String::from_str("03"))
    } else if contains_substr(input_month, "APR") {
        Some(String::from_str("04"))
    } else if contains_substr(input_month, "MAY") {
        Some(String::from_str("05"))
    } else if contains_substr(input_month, "JUN") {
        Some(String::from_str("06"))
    } else if contains_substr(input_month, "JUL") {
        Some(String::from_str("07"))
    } else if contains_substr(input_month, "AUG") {
        Some(String::from_str("08"))
    } else if contains_substr(input_month, "SEP") {
        Some(String::from_str("09"))
    } else if contains_substr(input_month, "OCT") {
        Some(String::from_str("10"))
    } else if contains_substr(input_month, "NOV") {
        Some(String::from_str("11"))
    } else if contains_substr(input_month, "DEC") {
        Some(String::from_str("12"))
    } else {
        None
    }
}

/// Reformats a raw date field, exactly as `date_result` describes.
pub fn parse_date(date: &str) -> (r: Result<String, ConvertError>)
    ensures
        date_result(date@) matches Ok(d) ==> r matches Ok(x) && x@ == d,
        date_result(date@) matches Err(e) ==> r matches Err(x) && x@ == e,
{
    let parts = split_whitespace_tokens(date);
    proof {
        assert(parts.deep_view().len() == parts@.len());
    }
    if parts.len() != 3 {
        return Err(ConvertError::MalformedDateToken);
    }
    proof {
        assert(parts@[1]@ == split_ws(date@)[1]);
        assert(parts@[0]@ == split_ws(date@)[0]);
        assert(parts@[2]@ == split_ws(date@)[2]);
    }
    match convert_month(parts[1].as_str()) {
        Some(mc) => {
            let mut out = parts[0].clone();
            out.append("/");
            out.append(mc.as_str());
            out.append("/");
            out.append(parts[2].as_str());
            proof {
                reveal_strlit("/");
                assert("/"@ =~= seq!['/']);
                let ps = split_ws(date@);
                assert(out@ =~= ps[0] + seq!['/'] + month_code(month_of(ps[1])->Some_0) + seq![
                    '/',
                ] + ps[2]);
            }
            Ok(out)
        },
        None => Err(ConvertError::UnknownMonthAbbreviation),
    }
}

/// `parse_date` with the two failures folded together, exactly as `date_of`
/// describes.
pub fn convert_date(date: &str) -> (r: Option<String>)
    ensures
        date_of(date@) matches Some(d) ==> r matches Some(x) && x@ == d,
        date_of(date@) is None ==> r is None,
{
    match parse_date(date) {
        Ok(d) => Some(d),
        Err(_) => None,
    }
}

} // verus!
