use tx_engine::client::Client;
use tx_engine::{Amount, EngineError};

fn dec(v: i64) -> Amount {
    Amount::from_i64(v)
}

// ── Deposit ──────────────────────────────────────────────────────────────

#[test]
fn deposit_increases_available() {
    let mut client = Client::new();
    client.deposit(1, dec(10)).unwrap();
    assert_eq!(client.available(), dec(10));
}

#[test]
fn deposit_increases_total() {
    let mut client = Client::new();
    client.deposit(1, dec(10)).unwrap();
    assert_eq!(client.total(), dec(10));
}

#[test]
fn deposit_records_tx_in_history() {
    let mut client = Client::new();
    client.deposit(1, dec(10)).unwrap();
    let failing_result = client.deposit(1, dec(5));
    // A second deposit with the same tx_id must fail, proving the first was recorded.
    assert!(matches!(failing_result, Err(EngineError::DuplicateTxId { tx: 1 })));
}

#[test]
fn deposit_with_negative_amount_returns_error() {
    let mut client = Client::new();
    let result = client.deposit(1, dec(-1));
    assert!(matches!(result, Err(EngineError::NegativeAmount { tx: 1 })));
}

#[test]
fn deposit_with_zero_amount_records_tx() {
    let mut client = Client::new();
    // A zero-amount deposit is accepted and records the tx id.
    client.deposit(1, Amount::zero()).unwrap();
    let result = client.deposit(1, dec(5));
    assert!(matches!(result, Err(EngineError::DuplicateTxId { tx: 1 })));
}

#[test]
fn deposit_with_zero_amount_does_not_change_balance() {
    let mut client = Client::new();
    client.deposit(1, Amount::zero()).unwrap();
    assert_eq!(client.available(), Amount::zero());
}

#[test]
fn deposit_on_locked_account_is_noop() {
    let mut client = Client::new();
    client.deposit(1, dec(10)).unwrap();
    client.dispute(1);
    client.chargeback(1); // account locked; available=0
    client.deposit(2, dec(5)).unwrap();
    assert_eq!(client.available(), Amount::zero());
}

// ── Withdrawal ────────────────────────────────────────────────────────────

#[test]
fn withdrawal_decreases_available() {
    let mut client = Client::new();
    client.deposit(1, dec(10)).unwrap();
    client.withdraw(2, dec(4)).unwrap();
    assert_eq!(client.available(), dec(6));
}

#[test]
fn withdrawal_with_insufficient_funds_is_noop() {
    let mut client = Client::new();
    client.deposit(1, dec(10)).unwrap();
    client.withdraw(2, dec(20)).unwrap();
    assert_eq!(client.available(), dec(10));
}

#[test]
fn withdrawal_with_insufficient_funds_does_not_change_total() {
    let mut client = Client::new();
    client.deposit(1, dec(10)).unwrap();
    client.withdraw(2, dec(20)).unwrap();
    assert_eq!(client.total(), dec(10));
}

#[test]
fn withdrawal_on_locked_account_is_noop() {
    let mut client = Client::new();
    client.deposit(1, dec(10)).unwrap();
    client.dispute(1);
    client.chargeback(1); // locked; available=0
    client.withdraw(2, dec(5)).unwrap();
    assert_eq!(client.available(), Amount::zero());
}

// ── Dispute ──────────────────────────────────────────────────────────────

#[test]
fn dispute_decreases_available() {
    let mut client = Client::new();
    client.deposit(1, dec(10)).unwrap();
    client.dispute(1);
    assert_eq!(client.available(), Amount::zero());
}

#[test]
fn dispute_increases_held() {
    let mut client = Client::new();
    client.deposit(1, dec(10)).unwrap();
    client.dispute(1);
    assert_eq!(client.held(), dec(10));
}

#[test]
fn dispute_does_not_change_total() {
    let mut client = Client::new();
    client.deposit(1, dec(10)).unwrap();
    client.dispute(1);
    assert_eq!(client.total(), dec(10));
}

#[test]
fn dispute_on_missing_tx_is_noop() {
    let mut client = Client::new();
    client.dispute(99);
    assert_eq!(client.held(), Amount::zero());
}

#[test]
fn dispute_on_already_disputed_is_noop() {
    let mut client = Client::new();
    client.deposit(1, dec(10)).unwrap();
    client.dispute(1);
    client.dispute(1); // second dispute on same tx
    assert_eq!(client.held(), dec(10));
}

#[test]
fn dispute_on_charged_back_is_noop() {
    let mut client = Client::new();
    client.deposit(1, dec(10)).unwrap();
    client.dispute(1);
    client.chargeback(1); // tx=ChargedBack, account=locked, held=0
    client.dispute(1);
    assert_eq!(client.held(), Amount::zero());
}

#[test]
fn dispute_on_locked_account_is_noop() {
    let mut client = Client::new();
    client.deposit(1, dec(10)).unwrap();
    client.deposit(2, dec(5)).unwrap();
    client.dispute(1);
    client.chargeback(1); // account locked; tx2 still Normal
    client.dispute(2);
    assert_eq!(client.held(), Amount::zero());
}

#[test]
fn dispute_can_make_available_negative() {
    // Assumption: dispute on a withdrawal still applies
    let mut client = Client::new();
    client.deposit(1, dec(10)).unwrap();
    client.withdraw(2, dec(8)).unwrap(); // available=2
    client.dispute(2); // available becomes -6
    assert!(client.available().less_than(&Amount::zero()));
}

#[test]
fn re_dispute_after_resolve_is_allowed() {
    // Assumption: resolve returns tx state to Normal, enabling re-dispute.
    let mut client = Client::new();
    client.deposit(1, dec(10)).unwrap();
    client.dispute(1);
    client.resolve(1); // back to Normal
    client.dispute(1); // re-dispute
    assert_eq!(client.held(), dec(10));
}

// ── Resolve ──────────────────────────────────────────────────────────────

#[test]
fn resolve_increases_available() {
    let mut client = Client::new();
    client.deposit(1, dec(10)).unwrap();
    client.dispute(1);
    client.resolve(1);
    assert_eq!(client.available(), dec(10));
}

#[test]
fn resolve_decreases_held() {
    let mut client = Client::new();
    client.deposit(1, dec(10)).unwrap();
    client.dispute(1);
    client.resolve(1);
    assert_eq!(client.held(), Amount::zero());
}

#[test]
fn resolve_on_non_disputed_tx_is_noop() {
    let mut client = Client::new();
    client.deposit(1, dec(10)).unwrap(); // tx is Normal, not Disputed
    client.resolve(1);
    assert_eq!(client.available(), dec(10));
}

#[test]
fn resolve_on_locked_account_is_noop() {
    // tx2 remains Disputed after chargeback(1) locks the account.
    let mut client = Client::new();
    client.deposit(1, dec(10)).unwrap();
    client.deposit(2, dec(5)).unwrap();
    client.dispute(1);
    client.dispute(2);
    client.chargeback(1); // locks account; held = 5 (tx2 still Disputed)
    client.resolve(2);
    assert_eq!(client.held(), dec(5));
}

// ── Chargeback ───────────────────────────────────────────────────────────

#[test]
fn chargeback_decreases_held() {
    let mut client = Client::new();
    client.deposit(1, dec(10)).unwrap();
    client.dispute(1);
    client.chargeback(1);
    assert_eq!(client.held(), Amount::zero());
}

#[test]
fn chargeback_decreases_total() {
    let mut client = Client::new();
    client.deposit(1, dec(10)).unwrap();
    client.dispute(1);
    client.chargeback(1);
    assert_eq!(client.total(), Amount::zero());
}

#[test]
fn chargeback_locks_account() {
    let mut client = Client::new();
    client.deposit(1, dec(10)).unwrap();
    client.dispute(1);
    client.chargeback(1);
    assert!(client.locked());
}

#[test]
fn chargeback_makes_further_ops_noop() {
    let mut client = Client::new();
    client.deposit(1, dec(10)).unwrap();
    client.dispute(1);
    client.chargeback(1); // total=0, locked=true
    client.deposit(2, dec(100)).unwrap();
    assert_eq!(client.total(), Amount::zero());
}

#[test]
fn zero_withdrawal_is_recorded_while_available_is_negative() {
    let mut client = Client::new();
    client.deposit(1, dec(10)).unwrap();
    client.withdraw(2, dec(8)).unwrap();
    client.dispute(2);
    assert_eq!(client.available(), dec(-6));
    assert!(client.withdraw(3, Amount::zero()).is_ok());
    assert_eq!(client.available(), dec(-6));
    assert_eq!(client.held(), dec(8));
    assert!(matches!(client.deposit(3, dec(1)), Err(EngineError::DuplicateTxId { tx: 3 })));
}

#[test]
fn positive_withdrawal_is_refused_while_available_is_negative() {
    let mut client = Client::new();
    client.deposit(1, dec(10)).unwrap();
    client.withdraw(2, dec(8)).unwrap();
    client.dispute(2);
    assert!(client.withdraw(3, dec(1)).is_ok());
    assert_eq!(client.available(), dec(-6));
    assert!(client.deposit(3, dec(1)).is_ok());
    assert_eq!(client.available(), dec(-5));
}
