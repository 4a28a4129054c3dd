use simple_rust_ledger::amount::Amount;
use simple_rust_ledger::ledger::Ledger;
use simple_rust_ledger::parser::CsvParser;
use simple_rust_ledger::types::{ClientId, TransactionId, TransactionType};
use simple_rust_ledger::writer::write_csv;

fn run_csv(input: &str) -> String {
    let mut parser = CsvParser::new(input.as_bytes()).expect("failed to create CSV parser");
    let mut ledger = Ledger::new();
    while let Some(result) = parser.next_record() {
        if let Ok(record) = result {
            ledger.process(record.tx_type, record.client_id, record.tx_id, record.amount);
        }
    }
    write_csv(&ledger.snapshot())
}

#[test]
fn scenario_single_deposit_row() {
    let output = run_csv("type,client,tx,amount\ndeposit,1,1,100.0\n");
    assert_eq!(output, "client,available,held,total,locked\n1,100.0000,0.0000,100.0000,false\n");
}

#[test]
fn scenario_dispute_then_chargeback_row() {
    let output = run_csv("type,client,tx,amount\ndeposit,1,1,100.0\ndispute,1,1,\nchargeback,1,1,\n");
    assert_eq!(output, "client,available,held,total,locked\n1,0.0000,0.0000,0.0000,true\n");
}

#[test]
fn scenario_withdrawal_then_chargeback_goes_negative() {
    let output = run_csv(
        "type,client,tx,amount\ndeposit,1,1,100.0\nwithdrawal,1,2,80.0\ndispute,1,1,\nchargeback,1,1,\n",
    );
    assert_eq!(output, "client,available,held,total,locked\n1,-80.0000,0.0000,-80.0000,true\n");
}

#[test]
fn scenario_triple_deposit_same_id_counts_once() {
    let output = run_csv(
        "type,client,tx,amount\ndeposit,1,1,100.0\ndeposit,1,1,100.0\ndeposit,1,1,100.0\n",
    );
    assert_eq!(output, "client,available,held,total,locked\n1,100.0000,0.0000,100.0000,false\n");
}

#[test]
fn scenario_dispute_unknown_tx_leaves_client_untouched() {
    let output = run_csv("type,client,tx,amount\ndeposit,1,1,100.0\ndispute,1,999,\n");
    assert_eq!(output, "client,available,held,total,locked\n1,100.0000,0.0000,100.0000,false\n");
    // With no other transaction touching the client, no account is created.
    let alone = run_csv("type,client,tx,amount\ndispute,1,999,\n");
    assert_eq!(alone, "client,available,held,total,locked\n");
}

#[test]
fn locked_account_stays_locked_through_every_kind_of_request() {
    let mut ledger = Ledger::new();
    let a = |s: &str| Amount::from_str_truncate(s).unwrap();
    ledger.process(TransactionType::Deposit, ClientId(1), TransactionId(1), Some(a("10")));
    ledger.process(TransactionType::Deposit, ClientId(1), TransactionId(2), Some(a("5")));
    ledger.process(TransactionType::Dispute, ClientId(1), TransactionId(1), None);
    ledger.process(TransactionType::Chargeback, ClientId(1), TransactionId(1), None);
    assert!(ledger.get_account(ClientId(1)).unwrap().locked);
    ledger.process(TransactionType::Deposit, ClientId(1), TransactionId(3), Some(a("1")));
    assert!(ledger.get_account(ClientId(1)).unwrap().locked);
    ledger.process(TransactionType::Withdrawal, ClientId(1), TransactionId(4), Some(a("1")));
    assert!(ledger.get_account(ClientId(1)).unwrap().locked);
    ledger.process(TransactionType::Dispute, ClientId(1), TransactionId(2), None);
    assert!(ledger.get_account(ClientId(1)).unwrap().locked);
    ledger.process(TransactionType::Resolve, ClientId(1), TransactionId(2), None);
    assert!(ledger.get_account(ClientId(1)).unwrap().locked);
}

#[test]
fn pure_deposits_sum_per_client() {
    let output = run_csv(
        "type,client,tx,amount\ndeposit,7,1,1.5\ndeposit,7,2,2.25\ndeposit,7,3,0.25\n",
    );
    assert_eq!(output, "client,available,held,total,locked\n7,4.0000,0.0000,4.0000,false\n");
}
