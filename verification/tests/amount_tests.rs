use simple_rust_ledger::amount::Amount;

fn amount(s: &str) -> Amount {
    Amount::from_str_truncate(s).unwrap()
}

#[test]
fn parsing_scales_to_units_rather_than_echoing() {
    // The parsed value is a count of 1/10000 units, whatever scale the
    // text uses.
    assert_eq!(amount("1").units, 10000);
    assert_eq!(amount("1.5").units, 15000);
    assert_eq!(amount("0.0001").units, 1);
    assert_eq!(amount("-80").units, -800000);
    assert_eq!(amount("100.0").units, 1000000);
}

#[test]
fn rounding_is_half_to_even_at_the_fourth_digit() {
    assert_eq!(amount("1.23456").units, 12346);
    assert_eq!(amount("1.00005").units, 10000);
    assert_eq!(amount("1.00015").units, 10002);
    assert_eq!(amount("1.00025").units, 10002);
}

#[test]
fn construction_from_decimal_rounds_the_same_way() {
    assert_eq!(Amount::new(rust_decimal::Decimal::new(-100, 0)).render(), "-100.0000");
    assert_eq!(Amount::new(rust_decimal::Decimal::new(123456, 5)).units, 12346);
}

#[test]
fn render_always_shows_four_fraction_digits() {
    assert_eq!(amount("0").render(), "0.0000");
    assert_eq!(amount("-0.5").render(), "-0.5000");
    assert_eq!(amount("999999999.9999").render(), "999999999.9999");
    assert_eq!(Amount::zero().render(), "0.0000");
}

#[test]
fn negativity_and_zero_tests_are_exact() {
    assert!(amount("-0.0001").is_negative());
    assert!(!amount("0").is_negative());
    assert!(amount("0.0000").is_zero());
    assert!(!amount("0.0001").is_zero());
    assert!(!Amount::zero().is_negative());
}

#[test]
fn sums_and_differences_are_exact() {
    assert_eq!(amount("0.1").plus(amount("0.2")), amount("0.3"));
    assert_eq!(amount("1.5").minus(amount("2")), amount("-0.5"));
}

#[test]
fn id_fields_accept_a_leading_plus_sign() {
    // u16/u32 text parsing mirrors Rust's: one optional leading plus.
    let mut parser = simple_rust_ledger::parser::CsvParser::new(
        b"type,client,tx,amount\ndeposit,+1,+2,100\n",
    )
    .unwrap();
    let record = parser.next_record().unwrap().unwrap();
    assert_eq!(record.client_id, simple_rust_ledger::types::ClientId(1));
    assert_eq!(record.tx_id, simple_rust_ledger::types::TransactionId(2));
}
