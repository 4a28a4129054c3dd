use simple_rust_ledger::amount::Amount;
use simple_rust_ledger::parser::{CsvParser, InputRecord, ParseError};
use simple_rust_ledger::types::{ClientId, TransactionId, TransactionType};

fn parse_csv(input: &str) -> Vec<Result<InputRecord, ParseError>> {
    let mut parser = CsvParser::new(input.as_bytes()).unwrap();
    let mut out = Vec::new();
    while let Some(result) = parser.next_record() {
        out.push(result);
    }
    out
}

fn amount(s: &str) -> Amount {
    Amount::from_str_truncate(s).unwrap()
}

#[test]
fn test_parse_standard_csv() {
    let input = "type,client,tx,amount\ndeposit,1,1,100.0\n";
    let results: Vec<_> = parse_csv(input);
    assert_eq!(results.len(), 1);
    let record = results[0].as_ref().unwrap();
    assert_eq!(record.tx_type, TransactionType::Deposit);
    assert_eq!(record.client_id, ClientId(1));
    assert_eq!(record.tx_id, TransactionId(1));
    assert_eq!(record.amount.unwrap(), amount("100"));
}

#[test]
fn test_parse_whitespace_in_headers_and_values() {
    let input = " type , client , tx , amount \n deposit , 1 , 1 , 100.0 \n";
    let results: Vec<_> = parse_csv(input);
    assert_eq!(results.len(), 1);
    assert!(results[0].is_ok());
}

#[test]
fn test_parse_different_column_order() {
    let input = "amount,tx,client,type\n100.0,1,1,deposit\n";
    let results: Vec<_> = parse_csv(input);
    assert_eq!(results.len(), 1);
    let record = results[0].as_ref().unwrap();
    assert_eq!(record.tx_type, TransactionType::Deposit);
    assert_eq!(record.client_id, ClientId(1));
}

#[test]
fn test_parse_extra_columns_ignored() {
    let input = "type,client,tx,amount,extra\ndeposit,1,1,100.0,ignored\n";
    let results: Vec<_> = parse_csv(input);
    assert_eq!(results.len(), 1);
    assert!(results[0].is_ok());
}

#[test]
fn test_parse_dispute_no_amount() {
    let input = "type,client,tx,amount\ndispute,1,1,\n";
    let results: Vec<_> = parse_csv(input);
    assert_eq!(results.len(), 1);
    let record = results[0].as_ref().unwrap();
    assert_eq!(record.tx_type, TransactionType::Dispute);
    assert!(record.amount.is_none());
}

#[test]
fn test_parse_max_precision_4_decimals() {
    let input = "type,client,tx,amount\ndeposit,1,1,1.2345\n";
    let results: Vec<_> = parse_csv(input);
    let record = results[0].as_ref().unwrap();
    assert_eq!(record.amount.unwrap(), amount("1.2345"));
}

#[test]
fn test_truncate_excess_precision() {
    let input = "type,client,tx,amount\ndeposit,1,1,1.23456\n";
    let results: Vec<_> = parse_csv(input);
    let record = results[0].as_ref().unwrap();
    // Should truncate to 4 decimals (with rounding)
    assert_eq!(record.amount.unwrap(), amount("1.2346"));
}

#[test]
fn test_skip_negative_amount() {
    let input = "type,client,tx,amount\ndeposit,1,1,-5.0\n";
    let results: Vec<_> = parse_csv(input);
    assert!(results[0].is_err());
    assert!(results[0].as_ref().unwrap_err().message.contains("Negative"));
}

#[test]
fn test_skip_overflow_client_id() {
    let input = "type,client,tx,amount\ndeposit,65536,1,100\n";
    let results: Vec<_> = parse_csv(input);
    assert!(results[0].is_err());
}

#[test]
fn test_skip_overflow_tx_id() {
    let input = "type,client,tx,amount\ndeposit,1,4294967296,100\n";
    let results: Vec<_> = parse_csv(input);
    assert!(results[0].is_err());
}

#[test]
fn test_max_client_id() {
    let input = "type,client,tx,amount\ndeposit,65535,1,100\n";
    let results: Vec<_> = parse_csv(input);
    assert!(results[0].is_ok());
    assert_eq!(results[0].as_ref().unwrap().client_id, ClientId(65535));
}

#[test]
fn test_max_tx_id() {
    let input = "type,client,tx,amount\ndeposit,1,4294967295,100\n";
    let results: Vec<_> = parse_csv(input);
    assert!(results[0].is_ok());
    assert_eq!(
        results[0].as_ref().unwrap().tx_id,
        TransactionId(4294967295)
    );
}

#[test]
fn test_leading_zeros() {
    let input = "type,client,tx,amount\ndeposit,001,001,001.0\n";
    let results: Vec<_> = parse_csv(input);
    let record = results[0].as_ref().unwrap();
    assert_eq!(record.client_id, ClientId(1));
    assert_eq!(record.tx_id, TransactionId(1));
}

#[test]
fn test_unknown_transaction_type() {
    let input = "type,client,tx,amount\ntransfer,1,1,100\n";
    let results: Vec<_> = parse_csv(input);
    assert!(results[0].is_err());
}

#[test]
fn test_non_numeric_client() {
    let input = "type,client,tx,amount\ndeposit,abc,1,100\n";
    let results: Vec<_> = parse_csv(input);
    assert!(results[0].is_err());
}

#[test]
fn test_deposit_missing_amount() {
    let input = "type,client,tx,amount\ndeposit,1,1,\n";
    let results: Vec<_> = parse_csv(input);
    assert!(results[0].is_err());
    assert!(results[0]
        .as_ref()
        .unwrap_err()
        .message
        .contains("requires amount"));
}

#[test]
fn test_quoted_values() {
    let input = "type,client,tx,amount\n\"deposit\",\"1\",\"1\",\"100\"\n";
    let results: Vec<_> = parse_csv(input);
    assert!(results[0].is_ok());
}

#[test]
fn test_empty_file_after_headers() {
    let input = "type,client,tx,amount\n";
    let results: Vec<_> = parse_csv(input);
    assert_eq!(results.len(), 0);
}

#[test]
fn test_all_transaction_types() {
    let input = "type,client,tx,amount
deposit,1,1,100
withdrawal,1,2,50
dispute,1,1,
resolve,1,1,
chargeback,1,3,
";
    let results: Vec<_> = parse_csv(input);
    assert_eq!(results.len(), 5);
    assert!(results.iter().all(|r| r.is_ok()));
}

#[test]
fn test_missing_column_fails_early() {
    let input = "type,client,tx\ndeposit,1,1\n";
    let result = CsvParser::new(input.as_bytes());
    assert!(result.is_err());
    assert!(result.unwrap_err().contains("amount"));
}
