//! Whole-run tests: header handling, output formatting, fail-fast errors.

use eq2ynab::amount::Amount;
use eq2ynab::error::ConvertError;
use eq2ynab::output::format_output;
use eq2ynab::pipeline::run;
use eq2ynab::row::Transaction;

const HEADER: &str = "Date,Payee,Catergory,Memo,Outflow,Inflow\n";

#[test]
fn scenario_two_records() {
    let input = "Date,Description,Amount,Balance\n\
                 31 JAN 2024,Payment to CANADA LIFE,-$271.80,$500.00\n\
                 29 JAN 2024,Deposit from BK OF MONTREAL,$610,$1110.00\n";
    let expected = "Date,Payee,Catergory,Memo,Outflow,Inflow\n\
                    31/01/2024,CANADA LIFE,,,271.8,\n\
                    29/01/2024,BK OF MONTREAL,,,,610\n";
    assert_eq!(run(input).unwrap(), expected);
}

#[test]
fn scenario_crlf_input() {
    let input = "Date,Description,Amount,Balance\r\n\
                 29 FEB 2024,Account Credited from 300605613,$1.59,$24640.45\r\n";
    let expected = "Date,Payee,Catergory,Memo,Outflow,Inflow\n\
                    29/02/2024,300605613,,,,1.59\n";
    assert_eq!(run(input).unwrap(), expected);
}

#[test]
fn header_only_input_gives_header_only_output() {
    assert_eq!(run("Date,Description,Amount,Balance\n").unwrap(), HEADER);
    assert_eq!(run("Date,Description,Amount,Balance").unwrap(), HEADER);
}

#[test]
fn empty_input_gives_header_only_output() {
    assert_eq!(run("").unwrap(), HEADER);
}

#[test]
fn field_count_error_halts_run() {
    let input = "Date,Description,Amount,Balance\n\
                 31 JAN 2024,Payment to CANADA LIFE,-$271.80\n\
                 29 JAN 2024,Deposit from BK OF MONTREAL,$610,$1110.00\n";
    assert_eq!(
        run(input),
        Err(ConvertError::InvalidFieldCount(
            "31 JAN 2024,Payment to CANADA LIFE,-$271.80".to_string()
        ))
    );
}

#[test]
fn unknown_month_halts_run() {
    let input = "Date,Description,Amount,Balance\n\
                 01 XYZ 2024,Payment to CANADA LIFE,-$271.80,$500.00\n";
    assert_eq!(run(input), Err(ConvertError::UnknownMonthAbbreviation));
}

#[test]
fn first_error_wins() {
    let input = "Date,Description,Amount,Balance\n\
                 31 JAN 2024,ok line,$1,$2\n\
                 bad line\n\
                 01 XYZ 2024,also bad,-$271.80,$500.00\n";
    assert_eq!(
        run(input),
        Err(ConvertError::InvalidFieldCount("bad line".to_string()))
    );
}

#[test]
fn format_output_empty_is_header() {
    assert_eq!(format_output(&Vec::new()), HEADER);
}

#[test]
fn format_output_column_by_sign() {
    let rows = vec![
        Transaction {
            date: "31/01/2024".to_string(),
            payee: "CANADA LIFE".to_string(),
            amount: Amount { negative: true, magnitude: "271.8".to_string() },
        },
        Transaction {
            date: "29/01/2024".to_string(),
            payee: "BK OF MONTREAL".to_string(),
            amount: Amount { negative: false, magnitude: "610".to_string() },
        },
    ];
    let expected = "Date,Payee,Catergory,Memo,Outflow,Inflow\n\
                    31/01/2024,CANADA LIFE,,,271.8,\n\
                    29/01/2024,BK OF MONTREAL,,,,610\n";
    assert_eq!(format_output(&rows), expected);
}

#[test]
fn negative_zero_lands_in_outflow() {
    let input = "Date,Description,Amount,Balance\n1 JAN 2024,x,-$0,$0\n";
    let expected = "Date,Payee,Catergory,Memo,Outflow,Inflow\n1/01/2024,x,,,0,\n";
    assert_eq!(run(input).unwrap(), expected);
}

#[test]
fn zero_lands_in_inflow() {
    let input = "Date,Description,Amount,Balance\n1 JAN 2024,x,$0,$0\n";
    let expected = "Date,Payee,Catergory,Memo,Outflow,Inflow\n1/01/2024,x,,,,0\n";
    assert_eq!(run(input).unwrap(), expected);
}
