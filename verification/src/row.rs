//! Per-line conversion: a raw 4-field CSV line becomes one `Transaction`,
//! or the first stage error. Construction is all-or-nothing: a failure at
//! any stage discards the whole line.

use vstd::prelude::*;
use crate::amount::Amount;
use crate::amount::AmountV;
use crate::amount::amount_result;
use crate::amount::parse_amount;
use crate::date::date_result;
use crate::date::parse_date;
use crate::error::ConvertError;
use crate::error::ErrorView;
use crate::payee::normalize_payee;
use crate::payee::remove_payee_prefix;
use crate::text::split_on;
use crate::text::split_char;

verus! {

/// One converted row: reformatted date, normalized payee, signed amount.
#[derive(Debug, Clone, PartialEq, Eq)]
pub struct Transaction {
    pub date: String,
    pub payee: String,
    pub amount: Amount,
}

/// The mathematical shape of a `Transaction`.
#[verifier::ext_equal]
pub struct TransactionV {
    pub date: Seq<char>,
    pub payee: Seq<char>,
    pub amount: AmountV,
}

impl View for Transaction {
    type V = TransactionV;

    open spec fn view(&self) -> TransactionV {
        TransactionV { date: self.date@, payee: self.payee@, amount: self.amount@ }
    }
}

impl DeepView for Transaction {
    type V = TransactionV;

    open spec fn deep_view(&self) -> TransactionV {
        self@
    }
}

/// The four raw fields of a data line, by position. The balance is carried
/// but unused.
#[derive(Debug, Clone, PartialEq, Eq)]
pub struct RawFields {
    pub date: String,
    pub payee: String,
    pub amount: String,
    pub balance: String,
}

/// Splits a data line on commas; exactly 4 fields or the line is rejected.
pub fn split_line(line: &str) -> (r: Result<RawFields, ConvertError>)
    ensures
        ({
            let fields = split_on(line@, ',');
            &&& fields.len() == 4 ==> (r matches Ok(f) && f.date@ == fields[0] && f.payee@
                == fields[1] && f.amount@ == fields[2] && f.balance@ == fields[3])
            &&& fields.len() != 4 ==> (r matches Err(e) && e@ == ErrorView::InvalidFieldCount(
                line@,
            ))
        }),
{
    let fields = split_char(line, ',');
    proof {
        assert(fields.deep_view().len() == fields@.len());
    }
    if fields.len() == 4 {
        proof {
            assert(fields@[0]@ == split_on(line@, ',')[0]);
            assert(fields@[1]@ == split_on(line@, ',')[1]);
            assert(fields@[2]@ == split_on(line@, ',')[2]);
            assert(fields@[3]@ == split_on(line@, ',')[3]);
        }
        Ok(
            RawFields {
                date: fields[0].clone(),
                payee: fields[1].clone(),
                amount: fields[2].clone(),
                balance: fields[3].clone(),
            },
        )
    } else {
        Err(ConvertError::InvalidFieldCount(String::from_str(line)))
    }
}

/// What converting one data line yields: the transaction, or the error of
/// the first failing stage (field count, then amount, then date; payee
/// normalization cannot fail).
pub open spec fn convert_result(line: Seq<char>) -> Result<TransactionV, ErrorView> {
    let fields = split_on(line, ',');
    if fields.len() != 4 {
        Err(ErrorView::InvalidFieldCount(line))
    } else {
        match amount_result(fields[2]) {
            Err(e) => Err(e),
            Ok(a) => match date_result(fields[0]) {
                Err(e) => Err(e),
                Ok(d) => Ok(TransactionV { date: d, payee: normalize_payee(fields[1]), amount: a }),
            },
        }
    }
}

/// Converts one data line, exactly as `convert_result` describes.
pub fn convert(line: &str) -> (r: Result<Transaction, ConvertError>)
    ensures
        convert_result(line@) matches Ok(t) ==> r matches Ok(x) && x@ == t,
        convert_result(line@) matches Err(e) ==> r matches Err(x) && x@ == e,
{
    let fields = match split_line(line) {
        Ok(f) => f,
        Err(e) => {
            return Err(e);
        },
    };
    let amount = match parse_amount(fields.amount.as_str()) {
        Ok(a) => a,
        Err(e) => {
            return Err(e);
        },
    };
    let payee = match remove_payee_prefix(fields.payee.as_str()) {
        Some(p) => p,
        None => {
            return Err(ConvertError::PayeeExtractionFailure);
        },
    };
    let date = match parse_date(fields.date.as_str()) {
        Ok(d) => d,
        Err(e) => {
            return Err(e);
        },
    };
    Ok(Transaction { date, payee: String::from_str(payee), amount })
}

} // verus!
