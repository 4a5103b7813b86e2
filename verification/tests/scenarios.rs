//! End-to-end runs of the library pipeline (reader, engine, snapshots), from CSV
//! text or from rows as the CSV layer delivers them.
use tx_engine::engine::{Item, Step};
use tx_engine::io::{read_items, RawRecord, RowInput, TransactionReader};
use tx_engine::{Amount, ClientSnapshot, Engine};

fn amt(mantissa: u128, scale: u32) -> Option<Amount> {
    Some(Amount::from_parts(false, mantissa, scale).unwrap())
}

fn neg(mantissa: u128, scale: u32) -> Option<Amount> {
    Some(Amount::from_parts(true, mantissa, scale).unwrap())
}

fn row(kind: &str, client: u16, tx: u32, amount: Option<Amount>) -> RawRecord {
    RawRecord { kind: kind.to_string(), client, tx, amount }
}

const HEADER: [&str; 4] = ["type", "client", "tx", "amount"];

/// Runs the rows through the reader and the engine's error-handling policy:
/// the sorted snapshots and the number of warnings, or the fatal message.
fn run_with(header: &[&str], rows: Vec<RowInput>) -> Result<(Vec<ClientSnapshot>, usize), String> {
    let header: Vec<String> = header.iter().map(|f| f.to_string()).collect();
    let mut reader = TransactionReader::new(Ok(header));
    let mut items = Vec::new();
    if let Some(e) = reader.take_pending() {
        items.push(Err(e));
    }
    for r in rows {
        items.push(reader.next_record(r));
    }
    run_items(items)
}

/// Handles the items in order: the sorted snapshots and the number of warnings, or
/// the fatal message.
fn run_items(items: Vec<Item>) -> Result<(Vec<ClientSnapshot>, usize), String> {
    let mut engine = Engine::new();
    let mut warnings = 0;
    for item in items {
        match engine.handle(item).expect("no overflow") {
            Step::Continue => {}
            Step::Warn(_) => warnings += 1,
            Step::Fatal(message) => return Err(message),
        }
    }
    let mut snaps = engine.snapshots();
    snaps.sort_by_key(|s| s.client);
    Ok((snaps, warnings))
}

/// Runs CSV text through the library's reader and the engine's error-handling policy.
fn run_csv(text: &str) -> (Vec<ClientSnapshot>, usize) {
    run_items(read_items(text.as_bytes())).expect("no fatal error")
}

fn run(rows: Vec<RawRecord>) -> (Vec<ClientSnapshot>, usize) {
    run_with(&HEADER, rows.into_iter().map(RowInput::Fields).collect()).expect("no fatal error")
}

fn check(snap: &ClientSnapshot, client: u16, available: Option<Amount>, held: Option<Amount>, locked: bool) {
    assert_eq!(snap.client, client);
    assert_eq!(Some(snap.available), available);
    assert_eq!(Some(snap.held), held);
    assert_eq!(Some(snap.total), snap.available.checked_add(snap.held));
    assert_eq!(snap.locked, locked);
}

#[test]
fn basic_deposits_and_withdrawals() {
    // the client #2 will not have sufficient funds for withdrawal so the funds will not be deducted
    let (snaps, skipped) = run_csv(
        "type,client,tx,amount\ndeposit,1,1,1.0\ndeposit,2,2,2.0\ndeposit,1,3,2.0\nwithdrawal,1,4,1.5\nwithdrawal,2,5,3.0\n",
    );
    assert_eq!(skipped, 0);
    assert_eq!(snaps.len(), 2);
    check(&snaps[0], 1, amt(15, 1), amt(0, 0), false);
    check(&snaps[1], 2, amt(2, 0), amt(0, 0), false);
}

#[test]
fn dispute_resolve_cycle_restores_balance() {
    let (snaps, _) = run_csv(
        "type,client,tx,amount\ndeposit,1,1,10.0\ndeposit,1,2,5.0\ndispute,1,1,\nresolve,1,1,\n",
    );
    assert_eq!(snaps.len(), 1);
    check(&snaps[0], 1, amt(15, 0), amt(0, 0), false);
}

#[test]
fn chargeback_locks_account_and_blocks_further_ops() {
    let (snaps, _) = run_csv(
        "type,client,tx,amount\ndeposit,1,1,10\ndeposit,1,2,5\ndispute,1,1,\nchargeback,1,1,\ndeposit,1,3,100\nwithdrawal,1,4,1\n",
    );
    assert_eq!(snaps.len(), 1);
    check(&snaps[0], 1, amt(5, 0), amt(0, 0), true);
}

#[test]
fn malformed_rows_are_skipped() {
    // Four skipped rows:
    //   - `deposit, 1, 3, -10.0` — negative amount rejected by the engine.
    //   - `foobar,  1, 4, 5.0`   — unknown transaction kind rejected at parse time.
    //   - `dispute, 1, 1, 5.0`   — dispute rows must not carry an amount; rejected at parse time.
    //   - `deposit, 1, 1, 5.0`   — duplicate tx id (1 was used above) rejected by the engine.
    let (snaps, skipped) = run_csv(
        "type,client,tx,amount\ndeposit, 1, 1, 10.0\ndeposit, 1, 3, -10.0\nfoobar,  1, 4, 5.0\ndispute, 1, 1, 5.0\ndeposit, 1, 1, 5.0\ndeposit, 1, 2, 2.5\n",
    );
    assert_eq!(skipped, 4);
    assert_eq!(snaps.len(), 1);
    check(&snaps[0], 1, amt(125, 1), amt(0, 0), false);
}

#[test]
fn whitespace_and_decimal_precision_are_preserved() {
    // Every column has leading and trailing whitespace that must be trimmed.
    // Amounts use the full 4-decimal precision: 1.2345 + 2.3456 - 0.0001 = 3.58.
    let (snaps, _) = run_csv(
        " type , client , tx , amount \n deposit , 1 , 1 , 1.2345 \n deposit , 1 , 2 , 2.3456 \n withdrawal , 1 , 3 , 0.0001 \n",
    );
    assert_eq!(snaps.len(), 1);
    check(&snaps[0], 1, amt(358, 2), amt(0, 0), false);
    // Written with its natural precision: 3.58, not 3.5800.
    assert_eq!(snaps[0].available.scale(), 2);
    assert_eq!(snaps[0].available.mantissa_abs(), 358);
}

#[test]
fn bad_field_rows_are_warned_and_skipped() {
    let rows = vec![
        RowInput::Fields(row("deposit", 1, 1, amt(10, 0))),
        RowInput::BadField("invalid amount".to_string()),
        RowInput::Fields(row("deposit", 1, 2, amt(5, 0))),
    ];
    let (snaps, warnings) = run_with(&HEADER, rows).unwrap();
    assert_eq!(warnings, 1);
    check(&snaps[0], 1, amt(15, 0), amt(0, 0), false);
}

#[test]
fn wrong_header_is_fatal_and_nothing_is_processed() {
    let rows = vec![RowInput::Fields(row("deposit", 1, 1, amt(10, 0)))];
    let res = run_with(&["kind", "client", "tx", "amount"], rows);
    assert_eq!(res.unwrap_err(), "wrong CSV header \u{2014} expected: type,client,tx,amount");
}

#[test]
fn unreadable_row_is_fatal() {
    let io = std::io::Error::new(std::io::ErrorKind::Other, "disk gone");
    let rows = vec![
        RowInput::Fields(row("deposit", 1, 1, amt(10, 0))),
        RowInput::Failed(tx_engine::ParseError::Io(io)),
        RowInput::Fields(row("deposit", 1, 2, amt(10, 0))),
    ];
    let res = run_with(&HEADER, rows);
    assert_eq!(res.unwrap_err(), "I/O error: disk gone");
}

#[test]
fn reused_tx_id_across_clients_is_skipped() {
    let (snaps, warnings) = run(vec![
        row("deposit", 1, 1, amt(10, 0)),
        row("deposit", 2, 1, amt(5, 0)),
        row("withdrawal", 2, 1, amt(1, 0)),
    ]);
    assert_eq!(warnings, 2);
    assert_eq!(snaps.len(), 2);
    check(&snaps[0], 1, amt(10, 0), amt(0, 0), false);
    check(&snaps[1], 2, amt(0, 0), amt(0, 0), false);
}

#[test]
fn snapshots_use_natural_precision() {
    let (snaps, _) = run_csv("type,client,tx,amount\ndeposit,1,1,1.5000\ndeposit,2,2,5.0000\nwithdrawal,2,3,5.0\n");
    assert_eq!(snaps.len(), 2);
    assert_eq!((snaps[0].available.mantissa_abs(), snaps[0].available.scale()), (15, 1));
    assert_eq!((snaps[0].total.mantissa_abs(), snaps[0].total.scale()), (15, 1));
    assert_eq!((snaps[0].held.mantissa_abs(), snaps[0].held.scale()), (0, 0));
    assert_eq!((snaps[1].available.mantissa_abs(), snaps[1].available.scale()), (0, 0));
    assert!(!snaps[1].available.is_sign_negative());
}

#[test]
fn warned_rows_change_nothing_but_fresh_accounts() {
    let with_bad = "type,client,tx,amount\n\
        deposit,1,1,10.0\n\
        deposit,1,2,-10.0\n\
        foobar,1,3,5.0\n\
        dispute,1,1,5.0\n\
        deposit,1,1,5.0\n\
        deposit,2,1,4.0\n\
        withdrawal,1,4,2.5\n\
        dispute,1,1,\n";
    let without = "type,client,tx,amount\n\
        deposit,1,1,10.0\n\
        withdrawal,1,4,2.5\n\
        dispute,1,1,\n";
    let (snaps_with, warnings) = run_csv(with_bad);
    let (snaps_without, none) = run_csv(without);
    assert_eq!(warnings, 5);
    assert_eq!(none, 0);
    assert_eq!(snaps_without.len(), 1);
    assert_eq!(snaps_with.len(), 2);
    check(&snaps_with[0], 1, Some(snaps_without[0].available), Some(snaps_without[0].held), snaps_without[0].locked);
    check(&snaps_with[1], 2, amt(0, 0), amt(0, 0), false);
}
