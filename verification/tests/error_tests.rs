use simple_rust_ledger::amount::Amount;
use simple_rust_ledger::parser::{CsvParser, InputRecord, ParseError};
use simple_rust_ledger::types::ClientId;

fn parse_csv(input: &[u8]) -> Vec<Result<InputRecord, ParseError>> {
    let mut parser = CsvParser::new(input).unwrap();
    let mut out = Vec::new();
    while let Some(result) = parser.next_record() {
        out.push(result);
    }
    out
}

#[test]
fn error_unknown_type_names_the_field() {
    let results = parse_csv(b"type,client,tx,amount\ntransfer,1,1,100\n");
    let e = results[0].as_ref().unwrap_err();
    assert_eq!(e.line, 2);
    assert_eq!(e.message, "Unknown transaction type: 'transfer'");
}

#[test]
fn error_invalid_client_names_the_field() {
    let results = parse_csv(b"type,client,tx,amount\ndeposit,abc,1,100\n");
    let e = results[0].as_ref().unwrap_err();
    assert_eq!(e.line, 2);
    assert_eq!(e.message, "Invalid client ID: 'abc'");
}

#[test]
fn error_invalid_tx_names_the_field() {
    let results = parse_csv(b"type,client,tx,amount\ndeposit,1,9x,100\n");
    let e = results[0].as_ref().unwrap_err();
    assert_eq!(e.message, "Invalid transaction ID: '9x'");
}

#[test]
fn error_invalid_amount_names_the_field() {
    let results = parse_csv(b"type,client,tx,amount\ndeposit,1,1,12.3.4\n");
    let e = results[0].as_ref().unwrap_err();
    assert_eq!(e.message, "Invalid amount: '12.3.4'");
}

#[test]
fn error_negative_amount_names_the_field() {
    let results = parse_csv(b"type,client,tx,amount\nwithdrawal,1,1,-5.0\n");
    let e = results[0].as_ref().unwrap_err();
    assert_eq!(e.message, "Negative amount not allowed: '-5.0'");
}

#[test]
fn error_missing_amount_on_withdrawal() {
    let results = parse_csv(b"type,client,tx,amount\nwithdrawal,1,1,\n");
    let e = results[0].as_ref().unwrap_err();
    assert_eq!(e.message, "Deposit/withdrawal requires amount");
}

#[test]
fn error_missing_column_names_the_first_absent_one() {
    let r = CsvParser::new(b"client,tx,amount\n1,1,100\n");
    assert_eq!(r.err().unwrap(), "Missing required column: 'type'");
    let r = CsvParser::new(b"type,tx,amount\ndeposit,1,100\n");
    assert_eq!(r.err().unwrap(), "Missing required column: 'client'");
    let r = CsvParser::new(b"type,client,amount\ndeposit,1,100\n");
    assert_eq!(r.err().unwrap(), "Missing required column: 'tx'");
    let r = CsvParser::new(b"type,client,tx\ndeposit,1,1\n");
    assert_eq!(r.err().unwrap(), "Missing required column: 'amount'");
}

#[test]
fn error_unreadable_row_is_reported_and_skipped() {
    // The second data row holds bytes that are not UTF-8, so the reader
    // cannot decode it; the rows around it still come through.
    let mut input = b"type,client,tx,amount\ndeposit,1,1,100\ndeposit,\xff\xfe,2,50\ndeposit,3,3,25\n".to_vec();
    let results = parse_csv(&mut input);
    assert_eq!(results.len(), 3);
    assert!(results[0].is_ok());
    let e = results[1].as_ref().unwrap_err();
    assert_eq!(e.line, 3);
    assert_eq!(e.message, "CSV error");
    let r = results[2].as_ref().unwrap();
    assert_eq!(r.client_id, ClientId(3));
}

#[test]
fn error_line_numbers_count_from_the_header() {
    let results = parse_csv(b"type,client,tx,amount\ndeposit,1,1,100\nbogus,2,2,1\ntransfer,3,3,1\n");
    assert!(results[0].is_ok());
    assert_eq!(results[1].as_ref().unwrap_err().line, 3);
    assert_eq!(results[2].as_ref().unwrap_err().line, 4);
}

#[test]
fn amount_parse_rejects_malformed_text() {
    assert!(Amount::from_str_truncate("").is_err());
    assert!(Amount::from_str_truncate("abc").is_err());
    assert!(Amount::from_str_truncate("1.2.3").is_err());
    assert!(Amount::from_str_truncate("--5").is_err());
}
