//! The balances of an account follow from its history.
//!
//! Each recorded transaction contributes a share to the available and to the held
//! balance, determined by its kind and dispute state. Starting from a fresh
//! account, every operation keeps each balance equal to the sum of these shares,
//! as long as the decimal arithmetic involved is exact.
use vstd::prelude::*;

use crate::amount::{exact_difference, exact_sum, fits_at_scale, max_scale, Amount};
use crate::client::{ClientState, DisputeState, RecordedTx, RecordedTxKind};
use crate::engine::{account_for, amount_or_zero, apply_spec, moves_funds, process_spec, recorded_elsewhere, step_facts};
use crate::run::process_all;
use crate::transaction::{Transaction, TransactionKind};

verus! {

/// What a recorded transaction contributes to the available balance: a deposit
/// its amount while `Normal` (nothing once disputed or charged back); a withdrawal
/// minus its amount while `Normal`, and minus twice its amount once disputed or
/// charged back (a dispute deducts the amount from available once more).
pub open spec fn available_share(r: RecordedTx) -> int {
    match (r.kind, r.state) {
        (RecordedTxKind::Deposit, DisputeState::Normal) => r.amount.units(),
        (RecordedTxKind::Deposit, _) => 0,
        (RecordedTxKind::Withdrawal, DisputeState::Normal) => -r.amount.units(),
        (RecordedTxKind::Withdrawal, _) => -2 * r.amount.units(),
    }
}

/// What a recorded transaction contributes to the held balance: its amount while
/// disputed, nothing otherwise.
pub open spec fn held_share(r: RecordedTx) -> int {
    if r.state == DisputeState::Disputed {
        r.amount.units()
    } else {
        0
    }
}

/// The sum of `f` over the records of a finite history.
pub open spec fn sum_of(h: Map<u32, RecordedTx>, f: spec_fn(RecordedTx) -> int) -> int
    decreases h.dom().len(),
{
    if h.dom().finite() && h.dom().len() > 0 {
        let k = h.dom().choose();
        f(h[k]) + sum_of(h.remove(k), f)
    } else {
        0
    }
}

/// The sum may be taken starting from any record.
pub proof fn lemma_sum_remove(h: Map<u32, RecordedTx>, f: spec_fn(RecordedTx) -> int, k: u32)
    requires
        h.dom().finite(),
        h.dom().contains(k),
    ensures
        sum_of(h, f) == f(h[k]) + sum_of(h.remove(k), f),
    decreases h.dom().len(),
{
    let c = h.dom().choose();
    assert(h.dom().len() > 0);
    if c != k {
        lemma_sum_remove(h.remove(c), f, k);
        lemma_sum_remove(h.remove(k), f, c);
        assert(h.remove(c).remove(k) =~= h.remove(k).remove(c));
    }
}

/// Recording `v` under `k` changes the sum by the share of `v`, less the share of
/// the record it replaces.
pub proof fn lemma_sum_insert(h: Map<u32, RecordedTx>, f: spec_fn(RecordedTx) -> int, k: u32, v: RecordedTx)
    requires
        h.dom().finite(),
    ensures
        h.insert(k, v).dom().finite(),
        h.dom().contains(k) ==> sum_of(h.insert(k, v), f) == sum_of(h, f) - f(h[k]) + f(v),
        !h.dom().contains(k) ==> sum_of(h.insert(k, v), f) == sum_of(h, f) + f(v),
{
    lemma_sum_remove(h.insert(k, v), f, k);
    if h.dom().contains(k) {
        lemma_sum_remove(h, f, k);
        assert(h.insert(k, v).remove(k) =~= h.remove(k));
    } else {
        assert(h.insert(k, v).remove(k) =~= h);
    }
}

/// A sum of non-negative shares is non-negative.
pub proof fn lemma_sum_non_negative(h: Map<u32, RecordedTx>, f: spec_fn(RecordedTx) -> int)
    requires
        forall|k: u32| h.dom().contains(k) ==> f(#[trigger] h[k]) >= 0,
    ensures
        sum_of(h, f) >= 0,
    decreases h.dom().len(),
{
    if h.dom().finite() && h.dom().len() > 0 {
        let k = h.dom().choose();
        lemma_sum_non_negative(h.remove(k), f);
    }
}

/// Whether every recorded amount of `h` is non-negative.
pub open spec fn amounts_non_negative(h: Map<u32, RecordedTx>) -> bool {
    forall|k: u32| h.dom().contains(k) ==> (#[trigger] h[k]).amount.units() >= 0
}

/// Only non-negative amounts are ever recorded, so, when the balances follow the
/// history, the held balance is never negative.
pub proof fn lemma_held_never_negative(c: ClientState, tx: Transaction)
    requires
        amounts_non_negative(c.history),
    ensures
        amounts_non_negative(ClientState::initial().history),
        apply_spec(c, tx) matches Some((d, _)) ==> amounts_non_negative(d.history),
        balances_follow_history(c) ==> c.held.units() >= 0,
{
    lemma_sum_non_negative(c.history, |r: RecordedTx| held_share(r));
}

/// Whether the balances of `s` are the sums of the shares of its history.
pub open spec fn balances_follow_history(s: ClientState) -> bool {
    &&& s.history.dom().finite()
    &&& s.available.units() == sum_of(s.history, |r: RecordedTx| available_share(r))
    &&& s.held.units() == sum_of(s.history, |r: RecordedTx| held_share(r))
}

/// Whether the arithmetic that transaction `tx` performs on account `c`, if any,
/// is exact.
pub open spec fn step_is_exact(c: ClientState, tx: Transaction) -> bool {
    let amount = amount_or_zero(tx);
    match tx.kind {
        TransactionKind::Deposit => !c.locked && amount.units() >= 0 && !c.history.contains_key(tx.tx)
            ==> exact_sum(c.available, amount),
        TransactionKind::Withdrawal => c.withdraw_applies(tx.tx, amount) ==> exact_difference(c.available, amount),
        TransactionKind::Dispute => !c.locked && c.tx_in_state(tx.tx, DisputeState::Normal) ==> exact_difference(
            c.available,
            c.history[tx.tx].amount,
        ) && exact_sum(c.held, c.history[tx.tx].amount),
        TransactionKind::Resolve => !c.locked && c.tx_in_state(tx.tx, DisputeState::Disputed) ==> exact_sum(
            c.available,
            c.history[tx.tx].amount,
        ) && exact_difference(c.held, c.history[tx.tx].amount),
        TransactionKind::Chargeback => !c.locked && c.tx_in_state(tx.tx, DisputeState::Disputed)
            ==> exact_difference(c.held, c.history[tx.tx].amount),
    }
}

/// Whether the exact results of the arithmetic that `tx` performs on `c`, if any,
/// fit in 96 bits at the larger scale of their operands (a condition on the values
/// alone).
pub open spec fn step_fits(c: ClientState, tx: Transaction) -> bool {
    let amount = amount_or_zero(tx);
    let x = c.history[tx.tx].amount;
    match tx.kind {
        TransactionKind::Deposit => c.deposit_applies(tx.tx, amount) ==> fits_at_scale(
            c.available.units() + amount.units(),
            max_scale(c.available.frac_digits(), amount.frac_digits()),
        ),
        TransactionKind::Withdrawal => c.withdraw_applies(tx.tx, amount) ==> fits_at_scale(
            c.available.units() - amount.units(),
            max_scale(c.available.frac_digits(), amount.frac_digits()),
        ),
        TransactionKind::Dispute => !c.locked && c.tx_in_state(tx.tx, DisputeState::Normal) ==> fits_at_scale(
            c.available.units() - x.units(),
            max_scale(c.available.frac_digits(), x.frac_digits()),
        ) && fits_at_scale(c.held.units() + x.units(), max_scale(c.held.frac_digits(), x.frac_digits())),
        TransactionKind::Resolve => !c.locked && c.tx_in_state(tx.tx, DisputeState::Disputed) ==> fits_at_scale(
            c.available.units() + x.units(),
            max_scale(c.available.frac_digits(), x.frac_digits()),
        ) && fits_at_scale(c.held.units() - x.units(), max_scale(c.held.frac_digits(), x.frac_digits())),
        TransactionKind::Chargeback => !c.locked && c.tx_in_state(tx.tx, DisputeState::Disputed) ==> fits_at_scale(
            c.held.units() - x.units(),
            max_scale(c.held.frac_digits(), x.frac_digits()),
        ),
    }
}

/// Arithmetic whose exact results fit is exact: with what processing `tx` reports of
/// its arithmetic, a step whose results fit (or that performs none) meets
/// [`step_is_exact`].
pub proof fn lemma_fitting_step_is_exact(m: Map<u16, ClientState>, tx: Transaction)
    requires
        step_facts(m, tx),
        step_fits(account_for(m, tx.client), tx),
    ensures
        (moves_funds(tx) && recorded_elsewhere(m, tx.client, tx.tx)) || step_is_exact(account_for(m, tx.client), tx),
{
}

/// A fresh account's balances follow its (empty) history.
pub proof fn lemma_initial_balances_follow_history()
    ensures
        balances_follow_history(ClientState::initial()),
{
    Amount::lemma_zero_value();
    let s = ClientState::initial();
    assert(s.history.dom() =~= Set::<u32>::empty());
}

/// Every transaction keeps an account's balances equal to the sums of the shares of
/// its history, when the arithmetic it performs is exact.
pub proof fn lemma_apply_keeps_balances(c: ClientState, tx: Transaction)
    requires
        balances_follow_history(c),
        step_is_exact(c, tx),
    ensures
        apply_spec(c, tx) matches Some((d, _)) ==> balances_follow_history(d),
{
    let fa = |r: RecordedTx| available_share(r);
    let fh = |r: RecordedTx| held_share(r);
    let amount = amount_or_zero(tx);
    match tx.kind {
        TransactionKind::Deposit => {
            let rec = RecordedTx { amount, kind: RecordedTxKind::Deposit, state: DisputeState::Normal };
            lemma_sum_insert(c.history, fa, tx.tx, rec);
            lemma_sum_insert(c.history, fh, tx.tx, rec);
        },
        TransactionKind::Withdrawal => {
            let rec = RecordedTx { amount, kind: RecordedTxKind::Withdrawal, state: DisputeState::Normal };
            lemma_sum_insert(c.history, fa, tx.tx, rec);
            lemma_sum_insert(c.history, fh, tx.tx, rec);
        },
        TransactionKind::Dispute => {
            if c.history.contains_key(tx.tx) {
                let rec = RecordedTx { state: DisputeState::Disputed, ..c.history[tx.tx] };
                lemma_sum_insert(c.history, fa, tx.tx, rec);
                lemma_sum_insert(c.history, fh, tx.tx, rec);
            }
        },
        TransactionKind::Resolve => {
            if c.history.contains_key(tx.tx) {
                let rec = RecordedTx { state: DisputeState::Normal, ..c.history[tx.tx] };
                lemma_sum_insert(c.history, fa, tx.tx, rec);
                lemma_sum_insert(c.history, fh, tx.tx, rec);
            }
        },
        TransactionKind::Chargeback => {
            if c.history.contains_key(tx.tx) {
                let rec = RecordedTx { state: DisputeState::ChargedBack, ..c.history[tx.tx] };
                lemma_sum_insert(c.history, fa, tx.tx, rec);
                lemma_sum_insert(c.history, fh, tx.tx, rec);
            }
        },
    }
}

/// Whether every account of `m` has balances that follow its history.
pub open spec fn engine_balances_follow_history(m: Map<u16, ClientState>) -> bool {
    forall|k: u16| m.contains_key(k) ==> balances_follow_history(#[trigger] m[k])
}

/// Processing keeps every account's balances equal to the sums of the shares of its
/// history, when the arithmetic the transaction performs is exact; an empty engine
/// starts that way.
pub proof fn lemma_process_keeps_balances(m: Map<u16, ClientState>, tx: Transaction)
    requires
        engine_balances_follow_history(m),
        (moves_funds(tx) && recorded_elsewhere(m, tx.client, tx.tx)) || step_is_exact(account_for(m, tx.client), tx),
    ensures
        engine_balances_follow_history(Map::<u16, ClientState>::empty()),
        process_spec(m, tx) matches Some((m2, _)) ==> engine_balances_follow_history(m2),
{
    lemma_initial_balances_follow_history();
    if !(moves_funds(tx) && recorded_elsewhere(m, tx.client, tx.tx)) {
        lemma_apply_keeps_balances(account_for(m, tx.client), tx);
    }
}

} // verus!

verus! {

/// Whether every step of processing `txs` in order from `m` performs exact
/// arithmetic (or none).
pub open spec fn steps_exact(m: Map<u16, ClientState>, txs: Seq<Transaction>) -> bool
    decreases txs.len(),
{
    if txs.len() == 0 {
        true
    } else {
        &&& (moves_funds(txs[0]) && recorded_elsewhere(m, txs[0].client, txs[0].tx)) || step_is_exact(
            account_for(m, txs[0].client),
            txs[0],
        )
        &&& match process_spec(m, txs[0]) {
            Some((m2, _)) => steps_exact(m2, txs.drop_first()),
            None => true,
        }
    }
}

/// Over a whole run from an empty engine, every account's balances stay the sums of
/// the shares of its history, as long as each step's arithmetic is exact.
pub proof fn lemma_run_keeps_balances(m: Map<u16, ClientState>, txs: Seq<Transaction>)
    requires
        engine_balances_follow_history(m),
        steps_exact(m, txs),
    ensures
        engine_balances_follow_history(Map::<u16, ClientState>::empty()),
        process_all(m, txs) matches Some(m2) ==> engine_balances_follow_history(m2),
    decreases txs.len(),
{
    lemma_initial_balances_follow_history();
    assert(engine_balances_follow_history(Map::<u16, ClientState>::empty()));
    if txs.len() > 0 {
        lemma_process_keeps_balances(m, txs[0]);
        if let Some((m1, _)) = process_spec(m, txs[0]) {
            lemma_run_keeps_balances(m1, txs.drop_first());
        }
    }
}

} // verus!
