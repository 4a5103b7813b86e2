use tx_engine::io::{
    header_matches, kind_from_lowercase, read_items, record_from_lowercase, RawRecord, RowInput, TransactionReader,
};
use tx_engine::{Amount, ClientSnapshot, ParseError, Transaction, TransactionKind};

fn header(fields: &[&str]) -> Result<Vec<String>, ParseError> {
    Ok(fields.iter().map(|f| f.to_string()).collect())
}

fn raw(kind: &str, client: u16, tx: u32, amount: Option<Amount>) -> RawRecord {
    RawRecord { kind: kind.to_string(), client, tx, amount }
}

/// Reads CSV text through the library's reader.
fn read_csv(text: &str) -> Vec<Result<(Transaction, usize), ParseError>> {
    read_items(text.as_bytes())
}

fn reader() -> TransactionReader {
    TransactionReader::new(header(&["type", "client", "tx", "amount"]))
}

// ── read_transactions ─────────────────────────────────────────────────────

#[test]
fn read_tolerates_whitespace_around_columns() {
    let csv = " type , client , tx , amount \n deposit , 1 , 1 , 10.0 \n";
    let mut items = read_csv(csv);
    let (tx, _) = items.remove(0).unwrap();
    assert_eq!(tx.kind, TransactionKind::Deposit);
}

#[test]
fn read_parses_four_decimal_places() {
    let csv = "type,client,tx,amount\ndeposit,1,1,1.2345\n";
    let mut items = read_csv(csv);
    let (tx, _) = items.remove(0).unwrap();
    assert_eq!(tx.amount, Some(Amount::from_parts(false, 12345, 4).unwrap()));
}

#[test]
fn read_rejects_deposit_without_amount() {
    let mut reader = reader();
    let result = reader.next_record(RowInput::Fields(raw("deposit", 1, 1, None)));
    assert!(matches!(result, Err(ParseError::AmountMismatch { .. })));
}

#[test]
fn read_rejects_dispute_with_amount() {
    let mut reader = reader();
    let amount = Amount::from_parts(false, 50, 1).unwrap();
    let result = reader.next_record(RowInput::Fields(raw("dispute", 1, 1, Some(amount))));
    assert!(matches!(result, Err(ParseError::AmountMismatch { .. })));
}

#[test]
fn read_rejects_unknown_kind() {
    let mut reader = reader();
    let result = reader.next_record(RowInput::Fields(raw("foo", 1, 1, Some(Amount::from_i64(10)))));
    assert!(matches!(result, Err(ParseError::UnknownKind { .. })));
}

#[test]
fn read_rejects_wrong_header() {
    let mut reader = TransactionReader::new(header(&["kind", "client", "tx", "amount"]));
    let result = reader.take_pending();
    assert!(matches!(result, Some(ParseError::WrongHeader)));
}

#[test]
fn read_yields_row_numbers_starting_at_one() {
    let mut reader = reader();
    let (_, row) = reader.next_record(RowInput::Fields(raw("deposit", 1, 1, Some(Amount::from_i64(10))))).unwrap();
    assert_eq!(row, 1);
}

// ── ClientSnapshot ────────────────────────────────────────────────────────

#[test]
fn client_snapshot_total_equals_available_plus_held() {
    let available = Amount::from_i64(7);
    let held = Amount::from_i64(3);
    let snapshot = ClientSnapshot {
        client: 1,
        available,
        held,
        total: available.checked_add(held).unwrap(),
        locked: false,
    };
    assert_eq!(Some(snapshot.total), snapshot.available.checked_add(snapshot.held));
}

// ── Further reader behaviour ─────────────────────────────────────────────

#[test]
fn read_matches_kind_case_insensitively() {
    let mut reader = reader();
    let (tx, _) = reader.next_record(RowInput::Fields(raw("WithDrawal", 3, 7, Some(Amount::from_i64(1))))).unwrap();
    assert_eq!(tx.kind, TransactionKind::Withdrawal);
    assert_eq!(tx.client, 3);
    assert_eq!(tx.tx, 7);
}

#[test]
fn read_unknown_kind_reports_lowercased_type_and_row() {
    let mut reader = reader();
    let _ = reader.next_record(RowInput::Fields(raw("deposit", 1, 1, Some(Amount::from_i64(1)))));
    let result = reader.next_record(RowInput::Fields(raw("FooBar", 1, 2, None)));
    match result {
        Err(ParseError::UnknownKind { row, raw }) => {
            assert_eq!(row, 2);
            assert_eq!(raw, "foobar");
        }
        other => panic!("unexpected {other:?}"),
    }
}

#[test]
fn read_amount_mismatch_keeps_type_as_written() {
    let mut reader = reader();
    let result = reader.next_record(RowInput::Fields(raw("Chargeback", 1, 2, Some(Amount::from_i64(1)))));
    match result {
        Err(ParseError::AmountMismatch { row, kind }) => {
            assert_eq!(row, 1);
            assert_eq!(kind, "Chargeback");
        }
        other => panic!("unexpected {other:?}"),
    }
}

#[test]
fn read_counts_rows_that_failed_to_parse() {
    let mut reader = reader();
    let _ = reader.next_record(RowInput::Fields(raw("foo", 1, 1, None)));
    let _ = reader.next_record(RowInput::Failed(ParseError::WrongHeader));
    let (_, row) = reader.next_record(RowInput::Fields(raw("resolve", 1, 1, None))).unwrap();
    assert_eq!(row, 3);
}

#[test]
fn read_header_error_is_reported_once() {
    let mut reader = TransactionReader::new(header(&["type", "client", "tx"]));
    assert!(matches!(reader.take_pending(), Some(ParseError::WrongHeader)));
    assert!(reader.take_pending().is_none());
    assert_eq!(reader.row(), 1);
}

#[test]
fn read_accepts_exact_header() {
    let mut reader = reader();
    assert!(reader.take_pending().is_none());
}

#[test]
fn read_rejects_header_with_extra_column() {
    let mut reader = TransactionReader::new(header(&["type", "client", "tx", "amount", "note"]));
    assert!(matches!(reader.take_pending(), Some(ParseError::WrongHeader)));
}

#[test]
fn kind_from_lowercase_needs_lowercase_input() {
    assert_eq!(kind_from_lowercase(&"chargeback".to_string()), Some(TransactionKind::Chargeback));
    assert_eq!(kind_from_lowercase(&"resolve".to_string()), Some(TransactionKind::Resolve));
    assert_eq!(kind_from_lowercase(&"Resolve".to_string()), None);
    assert_eq!(kind_from_lowercase(&"".to_string()), None);
}

#[test]
fn record_from_lowercase_uses_the_given_lowercase() {
    let r = record_from_lowercase(raw("DISPUTE", 4, 9, None), "dispute".to_string(), 5).unwrap();
    assert_eq!(r.0.kind, TransactionKind::Dispute);
    assert_eq!(r.0.client, 4);
    assert_eq!(r.0.tx, 9);
    assert_eq!(r.0.amount, None);
    assert_eq!(r.1, 5);
    let e = record_from_lowercase(raw("DISPUTE", 4, 9, None), "DISPUTE".to_string(), 5);
    assert!(matches!(e, Err(ParseError::UnknownKind { row: 5, .. })));
}

#[test]
fn header_matches_exact_names_only() {
    let ok: Vec<String> = ["type", "client", "tx", "amount"].iter().map(|s| s.to_string()).collect();
    assert!(header_matches(&ok));
    let swapped: Vec<String> = ["client", "type", "tx", "amount"].iter().map(|s| s.to_string()).collect();
    assert!(!header_matches(&swapped));
    let upper: Vec<String> = ["Type", "client", "tx", "amount"].iter().map(|s| s.to_string()).collect();
    assert!(!header_matches(&upper));
    assert!(!header_matches(&Vec::new()));
}

#[test]
fn read_error_from_csv_layer_passes_through_with_its_row() {
    let mut reader = reader();
    let res = reader.next_record(RowInput::Failed(ParseError::Io(std::io::Error::new(std::io::ErrorKind::Other, "x"))));
    assert!(matches!(res, Err(ParseError::Io(_))));
    assert_eq!(reader.row(), 2);
}

#[test]
fn read_bad_field_gets_its_row_number() {
    let mut reader = reader();
    let _ = reader.next_record(RowInput::Fields(raw("deposit", 1, 1, Some(Amount::from_i64(1)))));
    match reader.next_record(RowInput::BadField("cannot parse amount".to_string())) {
        Err(ParseError::InvalidField { row, detail }) => {
            assert_eq!(row, 2);
            assert_eq!(detail, "cannot parse amount");
        }
        other => panic!("unexpected {other:?}"),
    }
    assert_eq!(reader.row(), 3);
}

#[test]
fn read_csv_reports_bad_amount_and_goes_on() {
    let csv = "type,client,tx,amount\ndeposit,1,1,abc\ndeposit,1,2,3\n";
    let items = read_csv(csv);
    assert!(matches!(items[0], Err(ParseError::InvalidField { row: 1, .. })));
    let (tx, row) = items[1].as_ref().unwrap();
    assert_eq!(*row, 2);
    assert_eq!(tx.amount, Some(Amount::from_i64(3)));
}

#[test]
fn read_csv_wrong_header_comes_first() {
    let items = read_csv("kind,client,tx,amount\ndeposit,1,1,1\n");
    assert!(matches!(items[0], Err(ParseError::WrongHeader)));
}
