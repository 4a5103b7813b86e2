//! Per-client account state machine: balances, dispute history and locked flag.
//!
//! Each operation is specified by a transition function on [`ClientState`], the
//! abstract view of a [`Client`]. A transition returns `None` exactly when a
//! balance update overflows the decimal range; there the account cannot be
//! updated, so the plain operation requires that this does not happen and the
//! `try_` operation reports it and leaves the account unchanged. A withdrawal only
//! subtracts an amount no larger than the balance, which never overflows, so it has
//! no `try_` form.
use vstd::prelude::*;

use std::collections::HashMap;

use crate::amount::{
    decimal_checked_add, decimal_checked_sub, difference_facts, exact_difference, exact_sum, fits_at_scale, max_scale,
    sum_facts, Amount,
};
use crate::error::EngineError;

verus! {

/// Whether a recorded transaction added or removed funds.
#[derive(Clone, Copy, Debug, PartialEq, Eq, Structural)]
pub enum RecordedTxKind {
    Deposit,
    Withdrawal,
}

/// Where a recorded transaction stands in the dispute cycle.
#[derive(Clone, Copy, Debug, PartialEq, Eq, Structural)]
pub enum DisputeState {
    Normal,
    Disputed,
    ChargedBack,
}

/// A deposit or withdrawal that the account accepted.
#[derive(Clone, Copy, Debug)]
pub struct RecordedTx {
    pub amount: Amount,
    pub kind: RecordedTxKind,
    pub state: DisputeState,
}

/// The abstract state of an account.
pub struct ClientState {
    pub available: Amount,
    pub held: Amount,
    pub locked: bool,
    pub history: Map<u32, RecordedTx>,
}

impl ClientState {
    /// A fresh account: zero balances, unlocked, no history.
    pub open spec fn initial() -> ClientState {
        ClientState {
            available: Amount::zero_value(),
            held: Amount::zero_value(),
            locked: false,
            history: Map::empty(),
        }
    }

    /// The state with `tx` recorded as `rec`.
    pub open spec fn with_record(self, tx: u32, rec: RecordedTx) -> ClientState {
        ClientState { history: self.history.insert(tx, rec), ..self }
    }

    /// Deposit of `amount` under id `tx`: the new state and the result, or `None`
    /// when the new available balance overflows.
    pub open spec fn deposit_spec(self, tx: u32, amount: Amount) -> Option<(ClientState, Result<(), EngineError>)> {
        if self.locked {
            Some((self, Ok(())))
        } else if amount.units() < 0 {
            Some((self, Err(EngineError::NegativeAmount { tx })))
        } else if self.history.contains_key(tx) {
            Some((self, Err(EngineError::DuplicateTxId { tx })))
        } else {
            match decimal_checked_add(self.available, amount) {
                None => None,
                Some(available) => Some(
                    (
                        ClientState { available, ..self }.with_record(
                            tx,
                            RecordedTx { amount, kind: RecordedTxKind::Deposit, state: DisputeState::Normal },
                        ),
                        Ok(()),
                    ),
                ),
            }
        }
    }

    /// Withdrawal of `amount` under id `tx`; with insufficient funds nothing changes
    /// and nothing is recorded.
    pub open spec fn withdraw_spec(self, tx: u32, amount: Amount) -> Option<(ClientState, Result<(), EngineError>)> {
        if self.locked {
            Some((self, Ok(())))
        } else if amount.units() < 0 {
            Some((self, Err(EngineError::NegativeAmount { tx })))
        } else if self.history.contains_key(tx) {
            Some((self, Err(EngineError::DuplicateTxId { tx })))
        } else if amount.units() > 0 && self.available.units() < amount.units() {
            Some((self, Ok(())))
        } else {
            match decimal_checked_sub(self.available, amount) {
                None => None,
                Some(available) => Some(
                    (
                        ClientState { available, ..self }.with_record(
                            tx,
                            RecordedTx { amount, kind: RecordedTxKind::Withdrawal, state: DisputeState::Normal },
                        ),
                        Ok(()),
                    ),
                ),
            }
        }
    }

    /// Whether `tx` is recorded in `state`.
    pub open spec fn tx_in_state(self, tx: u32, state: DisputeState) -> bool {
        self.history.contains_key(tx) && self.history[tx].state == state
    }

    /// Dispute of `tx`: its amount moves from available to held and it becomes
    /// `Disputed`. A no-op unless the account is unlocked and `tx` is `Normal`.
    pub open spec fn dispute_spec(self, tx: u32) -> Option<ClientState> {
        if self.locked || !self.tx_in_state(tx, DisputeState::Normal) {
            Some(self)
        } else {
            let rec = self.history[tx];
            match (decimal_checked_sub(self.available, rec.amount), decimal_checked_add(self.held, rec.amount)) {
                (Some(available), Some(held)) => Some(
                    ClientState { available, held, ..self }.with_record(
                        tx,
                        RecordedTx { state: DisputeState::Disputed, ..rec },
                    ),
                ),
                _ => None,
            }
        }
    }

    /// Resolution of `tx`: its amount moves from held back to available and it
    /// returns to `Normal`. A no-op unless the account is unlocked and `tx` is `Disputed`.
    pub open spec fn resolve_spec(self, tx: u32) -> Option<ClientState> {
        if self.locked || !self.tx_in_state(tx, DisputeState::Disputed) {
            Some(self)
        } else {
            let rec = self.history[tx];
            match (decimal_checked_add(self.available, rec.amount), decimal_checked_sub(self.held, rec.amount)) {
                (Some(available), Some(held)) => Some(
                    ClientState { available, held, ..self }.with_record(
                        tx,
                        RecordedTx { state: DisputeState::Normal, ..rec },
                    ),
                ),
                _ => None,
            }
        }
    }

    /// Chargeback of `tx`: its amount leaves held, it becomes `ChargedBack` and the
    /// account locks. A no-op unless the account is unlocked and `tx` is `Disputed`.
    pub open spec fn chargeback_spec(self, tx: u32) -> Option<ClientState> {
        if self.locked || !self.tx_in_state(tx, DisputeState::Disputed) {
            Some(self)
        } else {
            let rec = self.history[tx];
            match decimal_checked_sub(self.held, rec.amount) {
                Some(held) => Some(
                    ClientState { held, locked: true, ..self }.with_record(
                        tx,
                        RecordedTx { state: DisputeState::ChargedBack, ..rec },
                    ),
                ),
                None => None,
            }
        }
    }

    /// The total, `available + held`, or `None` when the sum overflows.
    pub open spec fn total_spec(self) -> Option<Amount> {
        decimal_checked_add(self.available, self.held)
    }

    /// Whether both balances are in the range of a `Decimal`.
    pub open spec fn balances_in_range(self) -> bool {
        self.available.in_range() && self.held.in_range()
    }

    /// Whether a deposit of `amount` under `tx` changes the available balance.
    pub open spec fn deposit_applies(self, tx: u32, amount: Amount) -> bool {
        !self.locked && amount.units() >= 0 && !self.history.contains_key(tx)
    }

    /// Whether a withdrawal of `amount` under `tx` is carried out: a valid one, unless
    /// a positive amount exceeds the available funds (a zero withdrawal is always
    /// carried out and recorded).
    pub open spec fn withdraw_applies(self, tx: u32, amount: Amount) -> bool {
        self.deposit_applies(tx, amount) && !(amount.units() > 0 && self.available.units() < amount.units())
    }

    /// What is known of the decimal arithmetic a deposit performs.
    pub open spec fn deposit_facts(self, tx: u32, amount: Amount) -> bool {
        self.deposit_applies(tx, amount) ==> sum_facts(self.available, amount)
    }

    /// What is known of the decimal arithmetic a withdrawal performs.
    pub open spec fn withdraw_facts(self, tx: u32, amount: Amount) -> bool {
        self.withdraw_applies(tx, amount) ==> difference_facts(self.available, amount)
    }

    /// What is known of the decimal arithmetic a dispute performs.
    pub open spec fn dispute_facts(self, tx: u32) -> bool {
        !self.locked && self.tx_in_state(tx, DisputeState::Normal) ==> difference_facts(
            self.available,
            self.history[tx].amount,
        ) && sum_facts(self.held, self.history[tx].amount)
    }

    /// What is known of the decimal arithmetic a resolution performs.
    pub open spec fn resolve_facts(self, tx: u32) -> bool {
        !self.locked && self.tx_in_state(tx, DisputeState::Disputed) ==> sum_facts(
            self.available,
            self.history[tx].amount,
        ) && difference_facts(self.held, self.history[tx].amount)
    }

    /// What is known of the decimal arithmetic a chargeback performs.
    pub open spec fn chargeback_facts(self, tx: u32) -> bool {
        !self.locked && self.tx_in_state(tx, DisputeState::Disputed) ==> difference_facts(
            self.held,
            self.history[tx].amount,
        )
    }
}

/// A client account.
pub struct Client {
    available: Amount,
    held: Amount,
    locked: bool,
    history: HashMap<u32, RecordedTx>,
}

impl View for Client {
    type V = ClientState;

    closed spec fn view(&self) -> ClientState {
        ClientState {
            available: self.available,
            held: self.held,
            locked: self.locked,
            history: self.history@,
        }
    }
}

impl Default for Client {
    fn default() -> (res: Self)
        ensures
            res@ == ClientState::initial(),
    {
        Client::new()
    }
}

impl Client {
    /// A fresh account.
    pub fn new() -> (res: Self)
        ensures
            res@ == ClientState::initial(),
            res@.balances_in_range(),
    {
        proof {
            Amount::lemma_zero_value();
        }
        Client { available: Amount::zero(), held: Amount::zero(), locked: false, history: HashMap::new() }
    }

    /// The balances of every account are in range.
    pub fn range_facts(&self)
        ensures
            self@.balances_in_range(),
    {
        self.available.range_facts();
        self.held.range_facts();
    }

    /// Adds `amount` to the available balance and records `tx`, or reports `None`
    /// (changing nothing) when the new balance would overflow.
    pub fn try_deposit(&mut self, tx: u32, amount: Amount) -> (res: Option<Result<(), EngineError>>)
        ensures
            match res {
                Some(r) => old(self)@.deposit_spec(tx, amount) == Some((final(self)@, r)),
                None => old(self)@.deposit_spec(tx, amount) is None && final(self)@ == old(self)@,
            },
            old(self)@.deposit_facts(tx, amount),
            final(self)@.balances_in_range(),
    {
        self.range_facts();
        if self.locked {
            return Some(Ok(()));
        }
        if amount.less_than(&Amount::zero()) {
            return Some(Err(EngineError::NegativeAmount { tx }));
        }
        proof {
            Amount::lemma_zero_value();
        }
        if self.history.contains_key(&tx) {
            return Some(Err(EngineError::DuplicateTxId { tx }));
        }
        match self.available.checked_add(amount) {
            None => None,
            Some(available) => {
                self.available = available;
                self.history.insert(
                    tx,
                    RecordedTx { amount, kind: RecordedTxKind::Deposit, state: DisputeState::Normal },
                );
                Some(Ok(()))
            },
        }
    }

    /// Adds the `amount` to the available balance. Returns an error for negative
    /// amounts or duplicate tx ids. Silently no-ops on a locked account.
    pub fn deposit(&mut self, tx_id: u32, amount: Amount) -> (res: Result<(), EngineError>)
        requires
            old(self)@.deposit_spec(tx_id, amount) is Some,
        ensures
            old(self)@.deposit_spec(tx_id, amount) == Some((final(self)@, res)),
            old(self)@.deposit_facts(tx_id, amount),
            final(self)@.balances_in_range(),
    {
        match self.try_deposit(tx_id, amount) {
            Some(r) => r,
            None => Ok(()),
        }
    }

    /// Deducts the `amount` from the available balance. Returns an error for negative
    /// amounts or duplicate tx ids. Silently no-ops on insufficient funds or a locked account.
    /// A zero amount is accepted and its id recorded even when the available balance
    /// is negative (after a disputed withdrawal).
    ///
    /// A withdrawal never overflows, and never leaves a negative balance it did not
    /// find.
    pub fn withdraw(&mut self, tx_id: u32, amount: Amount) -> (res: Result<(), EngineError>)
        ensures
            old(self)@.withdraw_spec(tx_id, amount) == Some((final(self)@, res)),
            old(self)@.withdraw_facts(tx_id, amount),
            final(self)@.available == old(self)@.available || final(self)@.available.units() >= 0,
            final(self)@.balances_in_range(),
    {
        self.range_facts();
        if self.locked {
            return Ok(());
        }
        if amount.less_than(&Amount::zero()) {
            return Err(EngineError::NegativeAmount { tx: tx_id });
        }
        proof {
            Amount::lemma_zero_value();
        }
        if self.history.contains_key(&tx_id) {
            return Err(EngineError::DuplicateTxId { tx: tx_id });
        }
        if Amount::zero().less_than(&amount) && self.available.less_than(&amount) {
            return Ok(());
        }
        proof {
            amount.lemma_zero_units();
        }
        match self.available.checked_sub(amount) {
            None => Ok(()),
            Some(available) => {
                self.available = available;
                self.history.insert(
                    tx_id,
                    RecordedTx { amount, kind: RecordedTxKind::Withdrawal, state: DisputeState::Normal },
                );
                Ok(())
            },
        }
    }

    /// Whether `tx` is recorded in this account's history.
    pub fn is_recorded(&self, tx: u32) -> (res: bool)
        ensures
            res == self@.history.contains_key(tx),
    {
        self.history.contains_key(&tx)
    }

    /// The recorded transaction `tx` if it is in `state`.
    fn record_in_state(&self, tx: u32, state: DisputeState) -> (res: Option<RecordedTx>)
        ensures
            res is Some <==> self@.tx_in_state(tx, state),
            res matches Some(r) ==> r == self@.history[tx],
    {
        match self.history.get(&tx) {
            Some(rec) => {
                if rec.state == state {
                    Some(*rec)
                } else {
                    None
                }
            },
            None => None,
        }
    }

    /// Disputes `tx`, or reports `None` (changing nothing) when a balance would overflow.
    pub fn try_dispute(&mut self, tx: u32) -> (res: Option<()>)
        ensures
            match res {
                Some(_) => old(self)@.dispute_spec(tx) == Some(final(self)@),
                None => old(self)@.dispute_spec(tx) is None && final(self)@ == old(self)@,
            },
            old(self)@.dispute_facts(tx),
            final(self)@.balances_in_range(),
    {
        self.range_facts();
        if self.locked {
            return Some(());
        }
        let rec = match self.record_in_state(tx, DisputeState::Normal) {
            Some(rec) => rec,
            None => return Some(()),
        };
        let available_res = self.available.checked_sub(rec.amount);
        let held_res = self.held.checked_add(rec.amount);
        let available = match available_res {
            Some(a) => a,
            None => return None,
        };
        let held = match held_res {
            Some(h) => h,
            None => return None,
        };
        self.history.insert(tx, RecordedTx { state: DisputeState::Disputed, ..rec });
        self.available = available;
        self.held = held;
        Some(())
    }

    /// Moves the referenced tx's amount from available to held and marks it `Disputed`.
    /// Silent no-op if the account is locked, the tx can't be found, or the tx is not in `Normal` state.
    pub fn dispute(&mut self, tx_id: u32)
        requires
            old(self)@.dispute_spec(tx_id) is Some,
        ensures
            old(self)@.dispute_spec(tx_id) == Some(final(self)@),
            old(self)@.dispute_facts(tx_id),
            final(self)@.balances_in_range(),
    {
        let _ = self.try_dispute(tx_id);
    }

    /// Resolves `tx`, or reports `None` (changing nothing) when a balance would overflow.
    pub fn try_resolve(&mut self, tx: u32) -> (res: Option<()>)
        ensures
            match res {
                Some(_) => old(self)@.resolve_spec(tx) == Some(final(self)@),
                None => old(self)@.resolve_spec(tx) is None && final(self)@ == old(self)@,
            },
            old(self)@.resolve_facts(tx),
            final(self)@.balances_in_range(),
    {
        self.range_facts();
        if self.locked {
            return Some(());
        }
        let rec = match self.record_in_state(tx, DisputeState::Disputed) {
            Some(rec) => rec,
            None => return Some(()),
        };
        let available_res = self.available.checked_add(rec.amount);
        let held_res = self.held.checked_sub(rec.amount);
        let available = match available_res {
            Some(a) => a,
            None => return None,
        };
        let held = match held_res {
            Some(h) => h,
            None => return None,
        };
        self.history.insert(tx, RecordedTx { state: DisputeState::Normal, ..rec });
        self.available = available;
        self.held = held;
        Some(())
    }

    /// Moves the referenced tx's amount from held back to available and returns it to `Normal`.
    /// Silent no-op if the account is locked, the tx can't be found, or tx is not `Disputed`.
    pub fn resolve(&mut self, tx_id: u32)
        requires
            old(self)@.resolve_spec(tx_id) is Some,
        ensures
            old(self)@.resolve_spec(tx_id) == Some(final(self)@),
            old(self)@.resolve_facts(tx_id),
            final(self)@.balances_in_range(),
    {
        let _ = self.try_resolve(tx_id);
    }

    /// Charges `tx` back, or reports `None` (changing nothing) when the held balance
    /// would overflow.
    pub fn try_chargeback(&mut self, tx: u32) -> (res: Option<()>)
        ensures
            match res {
                Some(_) => old(self)@.chargeback_spec(tx) == Some(final(self)@),
                None => old(self)@.chargeback_spec(tx) is None && final(self)@ == old(self)@,
            },
            old(self)@.chargeback_facts(tx),
            final(self)@.balances_in_range(),
    {
        self.range_facts();
        if self.locked {
            return Some(());
        }
        let rec = match self.record_in_state(tx, DisputeState::Disputed) {
            Some(rec) => rec,
            None => return Some(()),
        };
        let held = match self.held.checked_sub(rec.amount) {
            Some(h) => h,
            None => return None,
        };
        self.history.insert(tx, RecordedTx { state: DisputeState::ChargedBack, ..rec });
        self.held = held;
        self.locked = true;
        Some(())
    }

    /// Removes held funds for the referenced tx, marks it `ChargedBack`, and locks the account.
    /// Silent no-op if the account is locked, the tx can't be found, or tx is not `Disputed`.
    pub fn chargeback(&mut self, tx_id: u32)
        requires
            old(self)@.chargeback_spec(tx_id) is Some,
        ensures
            old(self)@.chargeback_spec(tx_id) == Some(final(self)@),
            old(self)@.chargeback_facts(tx_id),
            final(self)@.balances_in_range(),
    {
        let _ = self.try_chargeback(tx_id);
    }

    /// Funds available for trading or withdrawal (`total - held`).
    pub fn available(&self) -> (res: Amount)
        ensures
            res == self@.available,
    {
        self.available
    }

    /// Funds held pending dispute resolution (`total - available`).
    pub fn held(&self) -> (res: Amount)
        ensures
            res == self@.held,
    {
        self.held
    }

    /// `available + held`, or `None` when the sum overflows.
    pub fn try_total(&self) -> (res: Option<Amount>)
        ensures
            res == self@.total_spec(),
            sum_facts(self@.available, self@.held),
    {
        self.available.checked_add(self.held)
    }

    /// Total funds (`available + held`). Computed on every call; never stored.
    pub fn total(&self) -> (res: Amount)
        requires
            self@.total_spec() is Some,
        ensures
            self@.total_spec() == Some(res),
            sum_facts(self@.available, self@.held),
    {
        match self.try_total() {
            Some(t) => t,
            None => Amount::zero(),
        }
    }

    /// Whether the account is frozen (a chargeback occurred).
    pub fn locked(&self) -> (res: bool)
        ensures
            res == self@.locked,
    {
        self.locked
    }
}

} // verus!

verus! {

/// Locked is terminal: on a locked account every operation is a silent no-op.
pub proof fn lemma_locked_account_is_frozen(s: ClientState, tx: u32, amount: Amount)
    requires
        s.locked,
    ensures
        s.deposit_spec(tx, amount) == Some((s, Ok::<(), EngineError>(()))),
        s.withdraw_spec(tx, amount) == Some((s, Ok::<(), EngineError>(()))),
        s.dispute_spec(tx) == Some(s),
        s.resolve_spec(tx) == Some(s),
        s.chargeback_spec(tx) == Some(s),
{
}

/// A recorded transaction id stays recorded: no operation removes an id from the
/// history, so a later deposit or withdrawal with that id is refused as a duplicate
/// (unless the account is locked, where nothing happens).
pub proof fn lemma_history_keeps_ids(s: ClientState, tx: u32, amount: Amount, other: u32)
    requires
        s.history.contains_key(other),
    ensures
        s.deposit_spec(tx, amount) matches Some((t, _)) ==> t.history.contains_key(other),
        s.withdraw_spec(tx, amount) matches Some((t, _)) ==> t.history.contains_key(other),
        s.dispute_spec(tx) matches Some(t) ==> t.history.contains_key(other),
        s.resolve_spec(tx) matches Some(t) ==> t.history.contains_key(other),
        s.chargeback_spec(tx) matches Some(t) ==> t.history.contains_key(other),
        !s.locked && amount.units() >= 0 ==> s.deposit_spec(other, amount) == Some(
            (s, Err::<(), EngineError>(EngineError::DuplicateTxId { tx: other })),
        ),
        !s.locked && amount.units() >= 0 ==> s.withdraw_spec(other, amount) == Some(
            (s, Err::<(), EngineError>(EngineError::DuplicateTxId { tx: other })),
        ),
{
}

/// A withdrawal never overflows and never overdraws: it either leaves the account
/// as it is or leaves a non-negative available balance.
pub proof fn lemma_withdrawal_never_overdraws(s: ClientState, tx: u32, amount: Amount)
    requires
        s.withdraw_facts(tx, amount),
    ensures
        s.withdraw_spec(tx, amount) matches Some((t, _)) && (t.available == s.available || t.available.units() >= 0),
{
    amount.lemma_zero_units();
    s.available.lemma_zero_units();
}

/// A dispute moves the disputed amount from available to held: the total
/// `available + held` is unchanged (when the decimal arithmetic is exact).
pub proof fn lemma_dispute_keeps_total(s: ClientState, tx: u32)
    requires
        s.history.contains_key(tx) ==> exact_difference(s.available, s.history[tx].amount),
        s.history.contains_key(tx) ==> exact_sum(s.held, s.history[tx].amount),
    ensures
        s.dispute_spec(tx) matches Some(t) && t.available.units() + t.held.units() == s.available.units()
            + s.held.units(),
{
}

/// A resolution moves the amount back from held to available: the total is unchanged
/// (when the decimal arithmetic is exact).
pub proof fn lemma_resolve_keeps_total(s: ClientState, tx: u32)
    requires
        s.history.contains_key(tx) ==> exact_sum(s.available, s.history[tx].amount),
        s.history.contains_key(tx) ==> exact_difference(s.held, s.history[tx].amount),
    ensures
        s.resolve_spec(tx) matches Some(t) && t.available.units() + t.held.units() == s.available.units()
            + s.held.units(),
{
}

/// Resolving a dispute undoes it: the balances return to their values before the
/// dispute and the transaction returns to `Normal`, so it may be disputed again
/// (when the decimal arithmetic is exact).
pub proof fn lemma_resolve_undoes_dispute(s: ClientState, tx: u32)
    requires
        !s.locked,
        s.tx_in_state(tx, DisputeState::Normal),
        exact_difference(s.available, s.history[tx].amount),
        exact_sum(s.held, s.history[tx].amount),
        exact_sum(decimal_checked_sub(s.available, s.history[tx].amount)->0, s.history[tx].amount),
        exact_difference(decimal_checked_add(s.held, s.history[tx].amount)->0, s.history[tx].amount),
    ensures
        s.dispute_spec(tx) matches Some(t) && t.tx_in_state(tx, DisputeState::Disputed) && (t.resolve_spec(tx) matches Some(u)
            && u.available.units() == s.available.units() && u.held.units() == s.held.units()
            && u.locked == s.locked && u.history == s.history && u.tx_in_state(tx, DisputeState::Normal)),
{
    let rec = s.history[tx];
    let t = s.dispute_spec(tx)->0;
    assert(t.history[tx] == RecordedTx { state: DisputeState::Disputed, ..rec });
    let u = t.resolve_spec(tx)->0;
    assert(u.history =~= s.history);
}

/// A chargeback of a disputed transaction removes its amount from held, leaves
/// available as it is, lowers the total by that amount and locks the account
/// (when the decimal arithmetic is exact).
pub proof fn lemma_chargeback_removes_held(s: ClientState, tx: u32)
    requires
        !s.locked,
        s.tx_in_state(tx, DisputeState::Disputed),
        exact_difference(s.held, s.history[tx].amount),
    ensures
        s.chargeback_spec(tx) matches Some(t) && t.locked && t.available == s.available && t.held.units()
            == s.held.units() - s.history[tx].amount.units() && t.available.units() + t.held.units() == s.available.units()
            + s.held.units() - s.history[tx].amount.units() && t.tx_in_state(tx, DisputeState::ChargedBack),
{
}

} // verus!

verus! {

/// A deposit of a non-negative amount under an id the account has not recorded, on
/// an unlocked account, always takes effect, whatever the balances and however long
/// the history: the available balance becomes the decimal sum of available and the
/// amount (exactly `available + amount` when that fits), held and the lock stay as
/// they are, the id is recorded as a normal deposit of the amount, and the answer is
/// `Ok`. Only a sum that overflows stops it.
pub proof fn lemma_deposit_takes_effect(s: ClientState, tx: u32, amount: Amount)
    requires
        !s.locked,
        amount.units() >= 0,
        !s.history.contains_key(tx),
    ensures
        decimal_checked_add(s.available, amount) matches Some(v) ==> s.deposit_spec(tx, amount) == Some(
            (
                ClientState {
                    available: v,
                    held: s.held,
                    locked: false,
                    history: s.history.insert(
                        tx,
                        RecordedTx { amount, kind: RecordedTxKind::Deposit, state: DisputeState::Normal },
                    ),
                },
                Ok::<(), EngineError>(()),
            ),
        ),
        decimal_checked_add(s.available, amount) is None ==> s.deposit_spec(tx, amount) is None,
        sum_facts(s.available, amount) && fits_at_scale(
            s.available.units() + amount.units(),
            max_scale(s.available.frac_digits(), amount.frac_digits()),
        ) ==> (s.deposit_spec(tx, amount) matches Some((t, r)) && r is Ok && t.available.units()
            == s.available.units() + amount.units() && t.held == s.held),
{
}

/// A deposit is refused, leaving the account exactly as it is, only on a locked
/// account (answered `Ok`), for a negative amount (`NegativeAmount`) or for an id
/// the account has recorded (`DuplicateTxId`), in that order.
pub proof fn lemma_deposit_refusals(s: ClientState, tx: u32, amount: Amount)
    ensures
        s.locked ==> s.deposit_spec(tx, amount) == Some((s, Ok::<(), EngineError>(()))),
        !s.locked && amount.units() < 0 ==> s.deposit_spec(tx, amount) == Some(
            (s, Err::<(), EngineError>(EngineError::NegativeAmount { tx })),
        ),
        !s.locked && amount.units() >= 0 && s.history.contains_key(tx) ==> s.deposit_spec(tx, amount) == Some(
            (s, Err::<(), EngineError>(EngineError::DuplicateTxId { tx })),
        ),
{
}

/// A withdrawal of a non-negative amount no larger than the available balance,
/// under an id the account has not recorded, on an unlocked account, always takes
/// effect, whatever the held balance: the available balance becomes the decimal
/// difference (never negative, and exactly `available - amount` when that fits),
/// held and the lock stay as they are, the id is recorded as a normal withdrawal of
/// the amount, and the answer is `Ok`.
pub proof fn lemma_withdrawal_takes_effect(s: ClientState, tx: u32, amount: Amount)
    requires
        !s.locked,
        0 <= amount.units() <= s.available.units(),
        !s.history.contains_key(tx),
    ensures
        decimal_checked_sub(s.available, amount) matches Some(v) ==> s.withdraw_spec(tx, amount) == Some(
            (
                ClientState {
                    available: v,
                    held: s.held,
                    locked: false,
                    history: s.history.insert(
                        tx,
                        RecordedTx { amount, kind: RecordedTxKind::Withdrawal, state: DisputeState::Normal },
                    ),
                },
                Ok::<(), EngineError>(()),
            ),
        ),
        difference_facts(s.available, amount) ==> (s.withdraw_spec(tx, amount) matches Some((t, r)) && r is Ok
            && t.available.units() >= 0 && t.history.contains_key(tx)),
        difference_facts(s.available, amount) && fits_at_scale(
            s.available.units() - amount.units(),
            max_scale(s.available.frac_digits(), amount.frac_digits()),
        ) ==> (s.withdraw_spec(tx, amount) matches Some((t, _)) && t.available.units() == s.available.units()
            - amount.units() && t.held == s.held),
{
}

/// A withdrawal is refused, leaving the account exactly as it is, only on a locked
/// account (answered `Ok`), for a negative amount (`NegativeAmount`), for an id the
/// account has recorded (`DuplicateTxId`), or for an amount above the available
/// balance (insufficient funds: answered `Ok`, and the id is not recorded).
pub proof fn lemma_withdrawal_refusals(s: ClientState, tx: u32, amount: Amount)
    ensures
        s.locked ==> s.withdraw_spec(tx, amount) == Some((s, Ok::<(), EngineError>(()))),
        !s.locked && amount.units() < 0 ==> s.withdraw_spec(tx, amount) == Some(
            (s, Err::<(), EngineError>(EngineError::NegativeAmount { tx })),
        ),
        !s.locked && amount.units() >= 0 && s.history.contains_key(tx) ==> s.withdraw_spec(tx, amount) == Some(
            (s, Err::<(), EngineError>(EngineError::DuplicateTxId { tx })),
        ),
        !s.locked && !s.history.contains_key(tx) && amount.units() > s.available.units() && amount.units() > 0
            ==> s.withdraw_spec(tx, amount) == Some((s, Ok::<(), EngineError>(()))),
{
}

/// A withdrawal of zero under an id the account has not recorded, on an unlocked
/// account, is accepted and recorded even when the available balance is negative:
/// the balances keep their values and the id is recorded as a normal withdrawal.
pub proof fn lemma_zero_withdrawal_is_recorded(s: ClientState, tx: u32, amount: Amount)
    requires
        !s.locked,
        amount.units() == 0,
        !s.history.contains_key(tx),
        difference_facts(s.available, amount),
    ensures
        s.withdraw_spec(tx, amount) matches Some((t, r)) && r is Ok && t.available.units() == s.available.units()
            && t.held == s.held && !t.locked && t.history == s.history.insert(
            tx,
            RecordedTx { amount, kind: RecordedTxKind::Withdrawal, state: DisputeState::Normal },
        ),
{
    amount.lemma_zero_units();
    s.available.lemma_zero_units();
}

/// A dispute of a normal transaction of an unlocked account moves its amount from
/// available (the decimal difference) to held (the decimal sum), marks it disputed
/// and leaves the lock off; a dispute of anything else changes nothing.
pub proof fn lemma_dispute_effect(s: ClientState, tx: u32)
    ensures
        !s.locked && s.tx_in_state(tx, DisputeState::Normal) ==> match (
            decimal_checked_sub(s.available, s.history[tx].amount),
            decimal_checked_add(s.held, s.history[tx].amount),
        ) {
            (Some(v), Some(w)) => s.dispute_spec(tx) == Some(
                ClientState {
                    available: v,
                    held: w,
                    locked: false,
                    history: s.history.insert(tx, RecordedTx { state: DisputeState::Disputed, ..s.history[tx] }),
                },
            ),
            _ => s.dispute_spec(tx) is None,
        },
        s.locked || !s.tx_in_state(tx, DisputeState::Normal) ==> s.dispute_spec(tx) == Some(s),
{
}

/// A resolution of a disputed transaction of an unlocked account moves its amount
/// from held (the decimal difference) back to available (the decimal sum) and marks
/// it normal again; a resolution of anything else changes nothing.
pub proof fn lemma_resolve_effect(s: ClientState, tx: u32)
    ensures
        !s.locked && s.tx_in_state(tx, DisputeState::Disputed) ==> match (
            decimal_checked_add(s.available, s.history[tx].amount),
            decimal_checked_sub(s.held, s.history[tx].amount),
        ) {
            (Some(v), Some(w)) => s.resolve_spec(tx) == Some(
                ClientState {
                    available: v,
                    held: w,
                    locked: false,
                    history: s.history.insert(tx, RecordedTx { state: DisputeState::Normal, ..s.history[tx] }),
                },
            ),
            _ => s.resolve_spec(tx) is None,
        },
        s.locked || !s.tx_in_state(tx, DisputeState::Disputed) ==> s.resolve_spec(tx) == Some(s),
{
}

/// A chargeback of a disputed transaction of an unlocked account removes its amount
/// from held (the decimal difference), leaves available as it is, marks it charged
/// back and locks the account; a chargeback of anything else changes nothing.
pub proof fn lemma_chargeback_effect(s: ClientState, tx: u32)
    ensures
        !s.locked && s.tx_in_state(tx, DisputeState::Disputed) ==> match decimal_checked_sub(
            s.held,
            s.history[tx].amount,
        ) {
            Some(w) => s.chargeback_spec(tx) == Some(
                ClientState {
                    available: s.available,
                    held: w,
                    locked: true,
                    history: s.history.insert(tx, RecordedTx { state: DisputeState::ChargedBack, ..s.history[tx] }),
                },
            ),
            None => s.chargeback_spec(tx) is None,
        },
        s.locked || !s.tx_in_state(tx, DisputeState::Disputed) ==> s.chargeback_spec(tx) == Some(s),
{
}

/// Only a chargeback locks an account: a deposit, withdrawal, dispute or resolution
/// never changes the lock.
pub proof fn lemma_only_chargeback_locks(s: ClientState, tx: u32, amount: Amount)
    ensures
        s.deposit_spec(tx, amount) matches Some((t, _)) ==> t.locked == s.locked,
        s.withdraw_spec(tx, amount) matches Some((t, _)) ==> t.locked == s.locked,
        s.dispute_spec(tx) matches Some(t) ==> t.locked == s.locked,
        s.resolve_spec(tx) matches Some(t) ==> t.locked == s.locked,
{
}

} // verus!
