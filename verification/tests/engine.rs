use tx_engine::engine::Step;
use tx_engine::{Amount, ClientSnapshot, Engine, EngineError, ParseError, Transaction, TransactionKind};

// ── Helpers ──────────────────────────────────────────────────────────────

fn dec(v: i64) -> Amount {
    Amount::from_i64(v)
}

fn deposit(client: u16, tx: u32, amount: Amount) -> Transaction {
    Transaction { kind: TransactionKind::Deposit, client, tx, amount: Some(amount) }
}

fn withdrawal(client: u16, tx: u32, amount: Amount) -> Transaction {
    Transaction { kind: TransactionKind::Withdrawal, client, tx, amount: Some(amount) }
}

fn dispute(client: u16, tx: u32) -> Transaction {
    Transaction { kind: TransactionKind::Dispute, client, tx, amount: None }
}

fn resolve(client: u16, tx: u32) -> Transaction {
    Transaction { kind: TransactionKind::Resolve, client, tx, amount: None }
}

fn chargeback(client: u16, tx: u32) -> Transaction {
    Transaction { kind: TransactionKind::Chargeback, client, tx, amount: None }
}

fn snapshot_for(engine: &Engine, client_id: u16) -> ClientSnapshot {
    engine
        .snapshots()
        .into_iter()
        .find(|s| s.client == client_id)
        .expect("client not found in snapshots")
}

// ── Client creation ──────────────────────────────────────────────────────

#[test]
fn engine_creates_new_client_on_first_deposit() {
    let mut engine = Engine::new();
    engine.process(deposit(1, 1, dec(10))).unwrap();
    assert_eq!(engine.snapshots().len(), 1);
}

#[test]
fn engine_creates_client_for_dispute_against_unknown_tx() {
    let mut engine = Engine::new();
    engine.process(dispute(42, 99)).unwrap();
    assert_eq!(engine.snapshots().len(), 1);
}

// ── Routing ──────────────────────────────────────────────────────────────

#[test]
fn engine_routes_deposit_to_correct_client() {
    let mut engine = Engine::new();
    engine.process(deposit(1, 1, dec(10))).unwrap();
    engine.process(deposit(2, 2, dec(5))).unwrap();
    assert_eq!(snapshot_for(&engine, 1).available, dec(10));
}

#[test]
fn engine_routes_withdrawal_to_correct_client() {
    let mut engine = Engine::new();
    engine.process(deposit(1, 1, dec(10))).unwrap();
    engine.process(deposit(2, 2, dec(10))).unwrap();
    engine.process(withdrawal(1, 3, dec(4))).unwrap();
    assert_eq!(snapshot_for(&engine, 1).available, dec(6));
}

#[test]
fn engine_routes_dispute_to_correct_client() {
    let mut engine = Engine::new();
    engine.process(deposit(1, 1, dec(10))).unwrap();
    engine.process(deposit(2, 2, dec(10))).unwrap();
    engine.process(dispute(1, 1)).unwrap();
    assert_eq!(snapshot_for(&engine, 1).held, dec(10));
}

#[test]
fn engine_routes_resolve_to_correct_client() {
    let mut engine = Engine::new();
    engine.process(deposit(1, 1, dec(10))).unwrap();
    engine.process(dispute(1, 1)).unwrap();
    engine.process(resolve(1, 1)).unwrap();
    assert_eq!(snapshot_for(&engine, 1).held, Amount::zero());
}

#[test]
fn engine_routes_chargeback_to_correct_client() {
    let mut engine = Engine::new();
    engine.process(deposit(1, 1, dec(10))).unwrap();
    engine.process(dispute(1, 1)).unwrap();
    engine.process(chargeback(1, 1)).unwrap();
    assert!(snapshot_for(&engine, 1).locked);
}

// ── Snapshots ────────────────────────────────────────────────────────────

#[test]
fn engine_snapshots_yields_one_per_client() {
    let mut engine = Engine::new();
    engine.process(deposit(1, 1, dec(10))).unwrap();
    engine.process(deposit(2, 2, dec(5))).unwrap();
    assert_eq!(engine.snapshots().len(), 2);
}

#[test]
fn engine_snapshot_total_equals_available_plus_held() {
    let mut engine = Engine::new();
    engine.process(deposit(1, 1, dec(10))).unwrap();
    engine.process(dispute(1, 1)).unwrap();
    let snap = snapshot_for(&engine, 1);
    assert_eq!(Some(snap.total), snap.available.checked_add(snap.held));
}

// ── Error propagation ────────────────────────────────────────────────────

#[test]
fn engine_returns_error_for_negative_deposit() {
    let mut engine = Engine::new();
    let result = engine.process(deposit(1, 1, dec(-1)));
    assert!(matches!(result, Err(EngineError::NegativeAmount { tx: 1 })));
}

#[test]
fn engine_returns_error_for_duplicate_tx_id() {
    let mut engine = Engine::new();
    engine.process(deposit(1, 1, dec(10))).unwrap();
    let result = engine.process(deposit(1, 1, dec(5)));
    assert!(matches!(result, Err(EngineError::DuplicateTxId { tx: 1 })));
}

// ── Cross-client safety ──────────────────────────────────

#[test]
fn engine_dispute_for_tx_owned_by_different_client_is_noop() {
    let mut engine = Engine::new();
    engine.process(deposit(1, 1, dec(10))).unwrap();
    // Client 2 references tx 1, which belongs to client 1 — silent no-op.
    engine.process(dispute(2, 1)).unwrap();
    assert_eq!(snapshot_for(&engine, 1).held, Amount::zero());
}

// ── Global transaction ids ───────────────────────────────────────────────

#[test]
fn engine_rejects_tx_id_used_by_another_client() {
    let mut engine = Engine::new();
    engine.process(deposit(1, 1, dec(10))).unwrap();
    let result = engine.process(deposit(2, 1, dec(5)));
    assert!(matches!(result, Err(EngineError::DuplicateTxId { tx: 1 })));
    let snap = snapshot_for(&engine, 2);
    assert_eq!(snap.available, Amount::zero());
    assert_eq!(snap.total, Amount::zero());
    let result = engine.process(withdrawal(2, 1, dec(5)));
    assert!(matches!(result, Err(EngineError::DuplicateTxId { tx: 1 })));
}

#[test]
fn engine_reports_negative_before_foreign_duplicate() {
    let mut engine = Engine::new();
    engine.process(deposit(1, 1, dec(10))).unwrap();
    let result = engine.process(deposit(2, 1, dec(-5)));
    assert!(matches!(result, Err(EngineError::NegativeAmount { tx: 1 })));
}

#[test]
fn engine_foreign_duplicate_on_locked_account_is_silent() {
    let mut engine = Engine::new();
    engine.process(deposit(2, 7, dec(3))).unwrap();
    engine.process(dispute(2, 7)).unwrap();
    engine.process(chargeback(2, 7)).unwrap();
    engine.process(deposit(1, 1, dec(10))).unwrap();
    assert!(engine.process(deposit(2, 1, dec(5))).is_ok());
    assert_eq!(snapshot_for(&engine, 2).available, Amount::zero());
}

#[test]
fn engine_unrecorded_withdrawal_id_stays_free() {
    let mut engine = Engine::new();
    engine.process(withdrawal(1, 4, dec(5))).unwrap(); // insufficient funds: not recorded
    engine.process(deposit(2, 4, dec(5))).unwrap();
    assert_eq!(snapshot_for(&engine, 2).available, dec(5));
}

#[test]
fn engine_handle_policy() {
    let mut engine = Engine::new();
    assert!(matches!(engine.handle(Ok((deposit(1, 1, dec(10)), 1))), Some(Step::Continue)));
    match engine.handle(Ok((deposit(1, 2, dec(-1)), 2))) {
        Some(Step::Warn(m)) => assert_eq!(m, "tx 2: amount must not be negative"),
        other => panic!("unexpected {other:?}"),
    }
    match engine.handle(Ok((deposit(3, 1, dec(1)), 3))) {
        Some(Step::Warn(m)) => assert_eq!(m, "tx 1: duplicate transaction id"),
        other => panic!("unexpected {other:?}"),
    }
    match engine.handle(Err(ParseError::UnknownKind { row: 4, raw: "foo".to_string() })) {
        Some(Step::Warn(m)) => assert_eq!(m, "row 4: unknown transaction type 'foo'"),
        other => panic!("unexpected {other:?}"),
    }
    match engine.handle(Err(ParseError::InvalidField { row: 5, detail: "bad amount".to_string() })) {
        Some(Step::Warn(m)) => assert_eq!(m, "row 5: invalid field: bad amount"),
        other => panic!("unexpected {other:?}"),
    }
    assert!(matches!(engine.handle(Err(ParseError::WrongHeader)), Some(Step::Fatal(_))));
    assert_eq!(snapshot_for(&engine, 1).available, dec(10));
    assert_eq!(engine.snapshots().len(), 2);
}
