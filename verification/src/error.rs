//! The conversion error taxonomy. Every error is fatal: the first one
//! aborts the whole run.

use vstd::prelude::*;

verus! {

/// Why a conversion run was aborted.
#[derive(Debug, Clone, PartialEq, Eq)]
pub enum ConvertError {
    /// A data line did not split into exactly 4 comma-separated fields;
    /// carries the offending line.
    InvalidFieldCount(String),
    /// The amount field had no characters to inspect.
    EmptyAmountField,
    /// The amount payload was not a valid decimal number.
    AmountParseFailure,
    /// Splitting the payee field yielded no segments. Degenerate; the
    /// converter proves it never happens.
    PayeeExtractionFailure,
    /// The date field did not split into exactly 3 whitespace-separated
    /// parts.
    MalformedDateToken,
    /// The month token matched no entry of the fixed abbreviation table.
    UnknownMonthAbbreviation,
}

/// The mathematical shape of a `ConvertError`.
pub enum ErrorView {
    InvalidFieldCount(Seq<char>),
    EmptyAmountField,
    AmountParseFailure,
    PayeeExtractionFailure,
    MalformedDateToken,
    UnknownMonthAbbreviation,
}

impl View for ConvertError {
    type V = ErrorView;

    open spec fn view(&self) -> ErrorView {
        match self {
            ConvertError::InvalidFieldCount(l) => ErrorView::InvalidFieldCount(l@),
            ConvertError::EmptyAmountField => ErrorView::EmptyAmountField,
            ConvertError::AmountParseFailure => ErrorView::AmountParseFailure,
            ConvertError::PayeeExtractionFailure => ErrorView::PayeeExtractionFailure,
            ConvertError::MalformedDateToken => ErrorView::MalformedDateToken,
            ConvertError::UnknownMonthAbbreviation => ErrorView::UnknownMonthAbbreviation,
        }
    }
}

/// The human-readable description of an error, naming the failing stage
/// and, where available, the offending line.
pub open spec fn message_of(e: ErrorView) -> Seq<char> {
    match e {
        ErrorView::InvalidFieldCount(l) => "invalid number of fields: "@ + l,
        ErrorView::EmptyAmountField => "empty amount field"@,
        ErrorView::AmountParseFailure => "amount is not a valid decimal number"@,
        ErrorView::PayeeExtractionFailure => "payee field split into no segments"@,
        ErrorView::MalformedDateToken => "date is not of the form DAY MONTH YEAR"@,
        ErrorView::UnknownMonthAbbreviation => "unknown month abbreviation"@,
    }
}

impl ConvertError {
    /// The error's description, as `message_of` states it.
    pub fn message(&self) -> (r: String)
        ensures
            r@ == message_of(self@),
    {
        match self {
            ConvertError::InvalidFieldCount(l) => String::from_str(
                "invalid number of fields: ",
            ).concat(l.as_str()),
            ConvertError::EmptyAmountField => String::from_str("empty amount field"),
            ConvertError::AmountParseFailure => String::from_str(
                "amount is not a valid decimal number",
            ),
            ConvertError::PayeeExtractionFailure => String::from_str(
                "payee field split into no segments",
            ),
            ConvertError::MalformedDateToken => String::from_str(
                "date is not of the form DAY MONTH YEAR",
            ),
            ConvertError::UnknownMonthAbbreviation => String::from_str(
                "unknown month abbreviation",
            ),
        }
    }
}

} // verus!
