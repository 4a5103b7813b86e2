use tx_engine::client::Client;
use tx_engine::{Amount, EngineError, ParseError};

#[test]
fn amounts_compare_by_value() {
    assert_eq!(Amount::from_i64(10), Amount::from_parts(false, 100, 1).unwrap());
    assert_ne!(Amount::from_i64(10), Amount::from_i64(11));
    assert_eq!(Amount::zero(), Amount::from_parts(true, 0, 3).unwrap());
    assert!(Amount::from_i64(-1).less_than(&Amount::zero()));
    assert!(!Amount::zero().less_than(&Amount::zero()));
    assert!(Amount::from_parts(false, 15, 1).unwrap().less_than(&Amount::from_i64(2)));
}

#[test]
fn checked_add_and_sub_compute_exactly() {
    let a = Amount::from_parts(false, 12345, 4).unwrap();
    let b = Amount::from_parts(false, 23456, 4).unwrap();
    assert_eq!(a.checked_add(b), Some(Amount::from_parts(false, 35801, 4).unwrap()));
    assert_eq!(b.checked_sub(a), Some(Amount::from_parts(false, 11111, 4).unwrap()));
    assert_eq!(a.checked_sub(b), Some(Amount::from_parts(true, 11111, 4).unwrap()));
    assert_eq!(Amount::from_i64(7).checked_add(Amount::from_i64(3)), Some(Amount::from_i64(10)));
}

#[test]
fn checked_add_reports_overflow() {
    let max = Amount::from_parts(false, (1u128 << 96) - 1, 0).unwrap();
    assert_eq!(max.checked_add(Amount::from_i64(1)), None);
    let min = Amount::from_parts(true, (1u128 << 96) - 1, 0).unwrap();
    assert_eq!(min.checked_sub(Amount::from_i64(1)), None);
}

#[test]
fn from_parts_checks_the_range() {
    assert!(Amount::from_parts(false, 1u128 << 96, 0).is_none());
    assert!(Amount::from_parts(false, 1, 29).is_none());
    let a = Amount::from_parts(true, 42, 28).unwrap();
    assert!(a.is_sign_negative());
    assert_eq!(a.mantissa_abs(), 42);
    assert_eq!(a.scale(), 28);
    let b = Amount::from_i64(i64::MIN);
    assert_eq!(b.mantissa_abs(), 1u128 << 63);
    assert!(b.is_sign_negative());
}

#[test]
fn try_deposit_reports_overflow_and_changes_nothing() {
    let mut client = Client::new();
    let max = Amount::from_parts(false, (1u128 << 96) - 1, 0).unwrap();
    client.deposit(1, max).unwrap();
    assert!(client.try_deposit(2, Amount::from_i64(1)).is_none());
    assert_eq!(client.available(), max);
    // tx 2 was not recorded.
    assert!(client.try_deposit(2, Amount::zero()).unwrap().is_ok());
}

#[test]
fn try_total_reports_overflow() {
    let mut client = Client::new();
    let max = Amount::from_parts(false, (1u128 << 96) - 1, 0).unwrap();
    client.deposit(1, max).unwrap();
    client.dispute(1);
    client.deposit(2, max).unwrap();
    assert_eq!(client.held(), max);
    assert!(client.try_total().is_none());
}

#[test]
fn error_messages() {
    assert_eq!(EngineError::NegativeAmount { tx: 42 }.message(), "tx 42: amount must not be negative");
    assert_eq!(EngineError::DuplicateTxId { tx: 0 }.message(), "tx 0: duplicate transaction id");
    assert_eq!(ParseError::WrongHeader.message(), "wrong CSV header \u{2014} expected: type,client,tx,amount");
    assert_eq!(
        ParseError::UnknownKind { row: 1207, raw: "foo".to_string() }.message(),
        "row 1207: unknown transaction type 'foo'"
    );
    assert_eq!(
        ParseError::AmountMismatch { row: 3, kind: "Dispute".to_string() }.message(),
        "row 3: unexpected amount field for 'Dispute'"
    );
    let io = std::io::Error::new(std::io::ErrorKind::Other, "boom");
    assert_eq!(EngineError::Io(io).message(), "I/O error: boom");
}

#[test]
fn sums_keep_the_larger_scale() {
    let a = Amount::from_parts(false, 15, 1).unwrap();
    let r = a.checked_add(Amount::from_i64(2)).unwrap();
    assert_eq!(r, Amount::from_parts(false, 35, 1).unwrap());
    assert_eq!(r.scale(), 1);
    let z = Amount::zero().checked_add(Amount::from_parts(false, 12345, 4).unwrap()).unwrap();
    assert_eq!(z.scale(), 4);
    assert_eq!(z.mantissa_abs(), 12345);
    let n = Amount::zero().checked_sub(Amount::from_i64(5)).unwrap();
    assert!(n.is_sign_negative());
    assert_eq!(n, Amount::from_i64(-5));
    let d = Amount::from_i64(10).checked_sub(Amount::from_i64(10)).unwrap();
    assert_eq!(d, Amount::zero());
}

#[test]
fn normalized_drops_trailing_zeros() {
    let a = Amount::from_parts(false, 15000, 4).unwrap().normalized();
    assert_eq!(a.mantissa_abs(), 15);
    assert_eq!(a.scale(), 1);
    assert!(!a.is_sign_negative());
    let b = Amount::from_parts(true, 1200, 2).unwrap().normalized();
    assert_eq!(b.mantissa_abs(), 12);
    assert_eq!(b.scale(), 0);
    assert!(b.is_sign_negative());
    let c = Amount::from_parts(false, 1234, 3).unwrap().normalized();
    assert_eq!(c.mantissa_abs(), 1234);
    assert_eq!(c.scale(), 3);
}

#[test]
fn normalized_zero_is_plain() {
    let z = Amount::from_parts(true, 0, 5).unwrap().normalized();
    assert_eq!(z.mantissa_abs(), 0);
    assert_eq!(z.scale(), 0);
    assert!(!z.is_sign_negative());
}

#[test]
fn equal_values_normalize_alike() {
    let a = Amount::from_parts(false, 150, 2).unwrap().normalized();
    let b = Amount::from_parts(false, 1_500_000, 6).unwrap().normalized();
    assert_eq!((a.mantissa_abs(), a.scale(), a.is_sign_negative()), (b.mantissa_abs(), b.scale(), b.is_sign_negative()));
}
