//! Stage-level tests: amount parsing, payee normalization, date
//! reformatting, line splitting.

use eq2ynab::amount::parse_amount;
use eq2ynab::date::convert_date;
use eq2ynab::date::convert_month;
use eq2ynab::date::parse_date;
use eq2ynab::error::ConvertError;
use eq2ynab::payee::remove_payee_prefix;
use eq2ynab::row::convert;
use eq2ynab::row::split_line;

#[test]
fn month_table_roundtrip() {
    let table = [
        ("JAN", "01"),
        ("FEB", "02"),
        ("MAR", "03"),
        ("APR", "04"),
        ("MAY", "05"),
        ("JUN", "06"),
        ("JUL", "07"),
        ("AUG", "08"),
        ("SEP", "09"),
        ("OCT", "10"),
        ("NOV", "11"),
        ("DEC", "12"),
    ];
    for (abbr, code) in table {
        assert_eq!(convert_month(abbr).as_deref(), Some(code));
    }
}

#[test]
fn month_unknown() {
    assert_eq!(convert_month("XYZ"), None);
    assert_eq!(convert_month(""), None);
}

#[test]
fn date_zero_pads_month_only() {
    assert_eq!(convert_date("29 FEB 2024").as_deref(), Some("29/02/2024"));
    assert_eq!(convert_date("1 JAN 1999").as_deref(), Some("1/01/1999"));
}

#[test]
fn date_part_count_rejected() {
    assert_eq!(parse_date("29 FEB"), Err(ConvertError::MalformedDateToken));
    assert_eq!(
        parse_date("29 FEB 2024 extra"),
        Err(ConvertError::MalformedDateToken)
    );
    assert_eq!(parse_date(""), Err(ConvertError::MalformedDateToken));
}

#[test]
fn date_unknown_month_rejected() {
    assert_eq!(
        parse_date("01 XYZ 2024"),
        Err(ConvertError::UnknownMonthAbbreviation)
    );
}

#[test]
fn payee_strips_after_keyword() {
    assert_eq!(
        remove_payee_prefix("Account Credited from 300605613"),
        Some("300605613")
    );
    assert_eq!(remove_payee_prefix("Payment to CANADA LIFE"), Some("CANADA LIFE"));
    assert_eq!(
        remove_payee_prefix("Deposit from BK OF MONTREAL"),
        Some("BK OF MONTREAL")
    );
    assert_eq!(remove_payee_prefix("Paid by EMPLOYER INC"), Some("EMPLOYER INC"));
}

#[test]
fn payee_without_keyword_passes_through() {
    assert_eq!(remove_payee_prefix("CANADA LIFE"), Some("CANADA LIFE"));
    assert_eq!(remove_payee_prefix(""), Some(""));
    // No trimming happens on the pass-through path.
    assert_eq!(remove_payee_prefix("  spaced  "), Some("  spaced  "));
}

#[test]
fn payee_keeps_last_segment_of_first_keyword_found() {
    // " to " is found first; the segment after its last occurrence stays.
    assert_eq!(remove_payee_prefix("a to b to c"), Some("c"));
    // " to " wins over " from " even when " from " comes later in the text.
    assert_eq!(remove_payee_prefix("a to b from c"), Some("b from c"));
}

#[test]
fn amount_positive() {
    let a = parse_amount("$610").unwrap();
    assert!(!a.negative);
    assert_eq!(a.magnitude, "610");
}

#[test]
fn amount_negative_drops_trailing_zero() {
    let a = parse_amount("-$271.80").unwrap();
    assert!(a.negative);
    assert_eq!(a.magnitude, "271.8");
}

#[test]
fn amount_normalization() {
    assert_eq!(parse_amount("$24640.45").unwrap().magnitude, "24640.45");
    assert_eq!(parse_amount("$0.50").unwrap().magnitude, "0.5");
    assert_eq!(parse_amount("$.5").unwrap().magnitude, "0.5");
    assert_eq!(parse_amount("$610.").unwrap().magnitude, "610");
    assert_eq!(parse_amount("$007").unwrap().magnitude, "7");
    assert_eq!(parse_amount("$0").unwrap().magnitude, "0");
    assert_eq!(parse_amount("-$0.00").unwrap().magnitude, "0");
}

#[test]
fn amount_empty_field_rejected() {
    assert_eq!(parse_amount(""), Err(ConvertError::EmptyAmountField));
}

#[test]
fn amount_bad_payload_rejected() {
    assert_eq!(parse_amount("-"), Err(ConvertError::AmountParseFailure));
    assert_eq!(parse_amount("$"), Err(ConvertError::AmountParseFailure));
    assert_eq!(parse_amount("$abc"), Err(ConvertError::AmountParseFailure));
    assert_eq!(parse_amount("$1.2.3"), Err(ConvertError::AmountParseFailure));
    assert_eq!(parse_amount("$."), Err(ConvertError::AmountParseFailure));
    assert_eq!(parse_amount("-$"), Err(ConvertError::AmountParseFailure));
}

#[test]
fn split_line_four_fields() {
    let f = split_line("29 FEB 2024,Account Credited from 300605613,$1.59,$24640.45").unwrap();
    assert_eq!(f.date, "29 FEB 2024");
    assert_eq!(f.payee, "Account Credited from 300605613");
    assert_eq!(f.amount, "$1.59");
    assert_eq!(f.balance, "$24640.45");
}

#[test]
fn split_line_wrong_field_count_rejected() {
    assert_eq!(
        split_line("a,b,c"),
        Err(ConvertError::InvalidFieldCount("a,b,c".to_string()))
    );
    assert_eq!(
        split_line("a,b,c,d,e"),
        Err(ConvertError::InvalidFieldCount("a,b,c,d,e".to_string()))
    );
}

#[test]
fn convert_valid_line() {
    let t = convert("29 FEB 2024,Account Credited from 300605613,$1.59,$24640.45").unwrap();
    assert_eq!(t.date, "29/02/2024");
    assert_eq!(t.payee, "300605613");
    assert!(!t.amount.negative);
    assert_eq!(t.amount.magnitude, "1.59");
}

#[test]
fn convert_sign_follows_first_char() {
    assert!(convert("1 JAN 2024,x,-$5,$1").unwrap().amount.negative);
    assert!(!convert("1 JAN 2024,x,$5,$1").unwrap().amount.negative);
}

#[test]
fn error_messages_name_the_stage() {
    assert_eq!(
        ConvertError::InvalidFieldCount("a,b".to_string()).message(),
        "invalid number of fields: a,b"
    );
    assert_eq!(ConvertError::EmptyAmountField.message(), "empty amount field");
    assert_eq!(
        ConvertError::UnknownMonthAbbreviation.message(),
        "unknown month abbreviation"
    );
}
