//! Converter from a bank-exported transaction CSV (date, description,
//! amount, balance) to a budgeting-tool CSV (date, payee, category, memo,
//! outflow, inflow).
//!
//! The whole row-transformation pipeline lives here: line splitting,
//! signed-amount parsing, payee normalization, date reformatting and
//! output assembly. File and terminal I/O stay outside the library.

use vstd::prelude::*;

pub mod amount;
pub mod date;
pub mod error;
pub mod laws;
pub mod output;
pub mod payee;
pub mod pipeline;
pub mod row;
pub mod text;

verus! {

/// ASCII whitespace, as the date tokenizer and the payee trimmer see it.
pub open spec fn is_ws(c: char) -> bool {
    c == ' ' || c == '\t' || c == '\n' || c == '\r' || c == '\u{c}'
}

/// Decimal digit.
pub open spec fn is_digit(c: char) -> bool {
    '0' <= c && c <= '9'
}

/// Executable mirror of `is_ws`.
pub fn ws_char(c: char) -> (r: bool)
    ensures
        r == is_ws(c),
{
    c == ' ' || c == '\t' || c == '\n' || c == '\r' || c == '\u{c}'
}

/// Executable mirror of `is_digit`.
pub fn digit_char(c: char) -> (r: bool)
    ensures
        r == is_digit(c),
{
    '0' <= c && c <= '9'
}

} // verus!
