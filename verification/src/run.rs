//! A whole run: the input items handled one after the other until the end or the
//! first fatal one.
use vstd::prelude::*;

use crate::client::ClientState;
use crate::engine::{
    account_for, handle_spec, ids_unique, lemma_process_keeps_ids_unique, lists_snapshots, process_spec, recorded_elsewhere,
    Item, Outcome,
};
use crate::error::fatal_error;
use crate::transaction::Transaction;

verus! {

/// The accounts after processing `txs` in order from `m`, or `None` when a balance
/// overflows on the way.
pub open spec fn process_all(m: Map<u16, ClientState>, txs: Seq<Transaction>) -> Option<Map<u16, ClientState>>
    decreases txs.len(),
{
    if txs.len() == 0 {
        Some(m)
    } else {
        match process_spec(m, txs[0]) {
            None => None,
            Some((m2, _)) => process_all(m2, txs.drop_first()),
        }
    }
}

/// The accounts after handling `items` in order from `m`, and whether a fatal item
/// stopped the run; `None` when a balance overflows on the way.
pub open spec fn run_spec(m: Map<u16, ClientState>, items: Seq<Item>) -> Option<(Map<u16, ClientState>, bool)>
    decreases items.len(),
{
    if items.len() == 0 {
        Some((m, false))
    } else {
        match handle_spec(m, items[0]) {
            None => None,
            Some((m2, Outcome::Fatal)) => Some((m2, true)),
            Some((m2, _)) => run_spec(m2, items.drop_first()),
        }
    }
}

/// The transactions among `items`, in order.
pub open spec fn accepted(items: Seq<Item>) -> Seq<Transaction>
    decreases items.len(),
{
    if items.len() == 0 {
        Seq::empty()
    } else {
        match items[0] {
            Ok((tx, _)) => seq![tx] + accepted(items.drop_first()),
            Err(_) => accepted(items.drop_first()),
        }
    }
}

/// Whether no item is a fatal error.
pub open spec fn no_fatal(items: Seq<Item>) -> bool {
    forall|i: int| 0 <= i < items.len() ==> !(#[trigger] items[i] matches Err(e) && fatal_error(e))
}

/// The clients that `txs` name.
pub open spec fn clients_of(txs: Seq<Transaction>) -> Set<u16> {
    Set::new(|c: u16| exists|i: int| 0 <= i < txs.len() && #[trigger] txs[i].client == c)
}

/// Malformed rows and rejected transactions are skipped: a run without a fatal item
/// ends where processing just its transactions, in order, ends.
pub proof fn lemma_run_skips_malformed(m: Map<u16, ClientState>, items: Seq<Item>)
    requires
        no_fatal(items),
    ensures
        run_spec(m, items) == match process_all(m, accepted(items)) {
            Some(m2) => Some((m2, false)),
            None => None::<(Map<u16, ClientState>, bool)>,
        },
    decreases items.len(),
{
    if items.len() > 0 {
        let rest = items.drop_first();
        assert(no_fatal(rest)) by {
            assert forall|i: int| 0 <= i < rest.len() implies !(#[trigger] rest[i] matches Err(e) && fatal_error(e)) by {
                assert(rest[i] == items[i + 1]);
            }
        }
        assert(!(items[0] matches Err(e) && fatal_error(e)));
        match items[0] {
            Ok((tx, _)) => {
                let txs = accepted(items);
                assert(txs[0] == tx);
                assert(txs.drop_first() =~= accepted(rest));
                match process_spec(m, tx) {
                    None => {},
                    Some((m2, _)) => {
                        lemma_run_skips_malformed(m2, rest);
                    },
                }
            },
            Err(_) => {
                lemma_run_skips_malformed(m, rest);
            },
        }
    }
}

/// Every client a run's transactions name has an account afterwards, and no other
/// account is created.
pub proof fn lemma_run_accounts(m: Map<u16, ClientState>, txs: Seq<Transaction>)
    ensures
        process_all(m, txs) matches Some(m2) ==> m2.dom() == m.dom() + clients_of(txs),
    decreases txs.len(),
{
    if txs.len() > 0 {
        let rest = txs.drop_first();
        if let Some((m1, _)) = process_spec(m, txs[0]) {
            lemma_run_accounts(m1, rest);
            assert(m1.dom() =~= m.dom().insert(txs[0].client));
            if process_all(m, txs) is Some {
                assert(clients_of(txs) =~= clients_of(rest).insert(txs[0].client)) by {
                    assert forall|c: u16| clients_of(txs).contains(c) implies clients_of(rest).insert(txs[0].client).contains(c) by {
                        let i = choose|i: int| 0 <= i < txs.len() && #[trigger] txs[i].client == c;
                        if i > 0 {
                            assert(rest[i - 1].client == c);
                        }
                    }
                    assert forall|c: u16| clients_of(rest).contains(c) implies clients_of(txs).contains(c) by {
                        let i = choose|i: int| 0 <= i < rest.len() && #[trigger] rest[i].client == c;
                        assert(txs[i + 1].client == c);
                    }
                    assert(txs[0].client == txs[0].client);
                }
                let m2 = process_all(m, txs)->0;
                assert(m2.dom() =~= m.dom() + clients_of(txs));
            }
        }
    } else {
        assert(clients_of(txs) =~= Set::empty());
        assert(m.dom() + clients_of(txs) =~= m.dom());
    }
}

/// The output of a run from an empty engine has one row per client its
/// transactions name, each client once.
pub proof fn lemma_run_snapshots(txs: Seq<Transaction>, m2: Map<u16, ClientState>, rows: Seq<crate::io::ClientSnapshot>)
    requires
        process_all(Map::empty(), txs) == Some(m2),
        lists_snapshots(m2, rows),
    ensures
        rows.len() == clients_of(txs).len(),
        forall|i: int| 0 <= i < rows.len() ==> clients_of(txs).contains(#[trigger] rows[i].client),
        forall|c: u16| clients_of(txs).contains(c) ==> exists|i: int| 0 <= i < rows.len() && #[trigger] rows[i].client == c,
        forall|i: int, j: int| 0 <= i < j < rows.len() ==> #[trigger] rows[i].client != #[trigger] rows[j].client,
{
    lemma_run_accounts(Map::empty(), txs);
    assert(m2.dom() =~= clients_of(txs));
}

/// Transaction ids stay unique across accounts over a whole run.
pub proof fn lemma_run_keeps_ids_unique(m: Map<u16, ClientState>, txs: Seq<Transaction>)
    requires
        ids_unique(m),
    ensures
        process_all(m, txs) matches Some(m2) ==> ids_unique(m2),
    decreases txs.len(),
{
    if txs.len() > 0 {
        lemma_process_keeps_ids_unique(m, txs[0]);
        if let Some((m1, _)) = process_spec(m, txs[0]) {
            lemma_run_keeps_ids_unique(m1, txs.drop_first());
        }
    }
}

} // verus!

verus! {

/// Whether the accounts `m1` are those of `m2` plus, at most, fresh accounts (zero
/// balances, unlocked, no history) under other client ids.
pub open spec fn adds_only_fresh(m1: Map<u16, ClientState>, m2: Map<u16, ClientState>) -> bool {
    &&& forall|k: u16| #[trigger] m2.contains_key(k) ==> m1.contains_key(k) && m1[k] == m2[k]
    &&& forall|k: u16| #[trigger] m1.contains_key(k) && !m2.contains_key(k) ==> m1[k] == ClientState::initial()
}

/// Whether two runs agree: both overflow, or both end, stopped by a fatal item or
/// not alike, with the accounts of the first being those of the second plus fresh ones.
pub open spec fn runs_agree(r1: Option<(Map<u16, ClientState>, bool)>, r2: Option<(Map<u16, ClientState>, bool)>) -> bool {
    match (r1, r2) {
        (None, None) => true,
        (Some((a, f1)), Some((b, f2))) => f1 == f2 && adds_only_fresh(a, b),
        _ => false,
    }
}

/// `items` without those that are warned about when the run from `m` reaches them
/// (malformed rows and rejected transactions); a run that overflows or stops at a
/// fatal item keeps the rest as it is.
pub open spec fn unwarned(m: Map<u16, ClientState>, items: Seq<Item>) -> Seq<Item>
    decreases items.len(),
{
    if items.len() == 0 {
        items
    } else {
        match handle_spec(m, items[0]) {
            Some((m2, Outcome::Warn)) => unwarned(m2, items.drop_first()),
            Some((m2, Outcome::Continue)) => seq![items[0]] + unwarned(m2, items.drop_first()),
            _ => items,
        }
    }
}

/// Adding only fresh accounts is transitive.
proof fn lemma_adds_only_fresh_trans(a: Map<u16, ClientState>, b: Map<u16, ClientState>, c: Map<u16, ClientState>)
    requires
        adds_only_fresh(a, b),
        adds_only_fresh(b, c),
    ensures
        adds_only_fresh(a, c),
{
    assert forall|k: u16| #[trigger] a.contains_key(k) && !c.contains_key(k) implies a[k] == ClientState::initial() by {
        if b.contains_key(k) {
            assert(b[k] == ClientState::initial());
        }
    }
}

/// An item that is warned about changes nothing but, for a rejected transaction,
/// creating the fresh account of the client it names.
pub proof fn lemma_warned_item_adds_only_fresh(m: Map<u16, ClientState>, item: Item)
    requires
        handle_spec(m, item) matches Some((_, o)) && o == Outcome::Warn,
    ensures
        handle_spec(m, item) matches Some((m2, _)) && adds_only_fresh(m2, m),
{
    if let Ok((tx, _)) = item {
        let c = account_for(m, tx.client);
        let (m2, _) = handle_spec(m, item)->0;
        assert(m2 == m.insert(tx.client, c));
    }
}

/// Fresh accounts make no difference to handling an item: it has the same outcome,
/// and afterwards the accounts differ by fresh accounts only.
pub proof fn lemma_fresh_accounts_change_nothing(m1: Map<u16, ClientState>, m2: Map<u16, ClientState>, item: Item)
    requires
        adds_only_fresh(m1, m2),
    ensures
        match (handle_spec(m1, item), handle_spec(m2, item)) {
            (None, None) => true,
            (Some((a, o1)), Some((b, o2))) => o1 == o2 && adds_only_fresh(a, b),
            _ => false,
        },
{
    if let Ok((tx, _)) = item {
        let k = tx.client;
        assert(account_for(m1, k) == account_for(m2, k));
        assert(recorded_elsewhere(m1, k, tx.tx) == recorded_elsewhere(m2, k, tx.tx)) by {
            if recorded_elsewhere(m1, k, tx.tx) {
                let j = choose|j: u16| j != k && m1.contains_key(j) && #[trigger] m1[j].history.contains_key(tx.tx);
                if !m2.contains_key(j) {
                    assert(m1[j] == ClientState::initial());
                }
                assert(m2[j].history.contains_key(tx.tx));
            }
            if recorded_elsewhere(m2, k, tx.tx) {
                let j = choose|j: u16| j != k && m2.contains_key(j) && #[trigger] m2[j].history.contains_key(tx.tx);
                assert(m1[j].history.contains_key(tx.tx));
            }
        }
    }
}

/// Runs from accounts that differ by fresh accounts only agree, when the first
/// takes `items` and the second the same items without those warned about.
proof fn lemma_runs_agree_without_warned(m1: Map<u16, ClientState>, m2: Map<u16, ClientState>, items: Seq<Item>)
    requires
        adds_only_fresh(m1, m2),
    ensures
        runs_agree(run_spec(m1, items), run_spec(m2, unwarned(m1, items))),
    decreases items.len(),
{
    if items.len() > 0 {
        let x = items[0];
        let rest = items.drop_first();
        lemma_fresh_accounts_change_nothing(m1, m2, x);
        match handle_spec(m1, x) {
            None => {},
            Some((a, Outcome::Fatal)) => {},
            Some((a, Outcome::Warn)) => {
                lemma_warned_item_adds_only_fresh(m1, x);
                lemma_adds_only_fresh_trans(a, m1, m2);
                lemma_runs_agree_without_warned(a, m2, rest);
            },
            Some((a, Outcome::Continue)) => {
                let (b, _) = handle_spec(m2, x)->0;
                lemma_runs_agree_without_warned(a, b, rest);
                let u = seq![x] + unwarned(a, rest);
                assert(u[0] == x);
                assert(u.drop_first() =~= unwarned(a, rest));
            },
        }
    } else {
        assert(adds_only_fresh(m1, m2));
    }
}

/// Rows that are warned about (malformed rows, and transactions the accounts
/// reject) are simply skipped: a run ends as the run of the same input without
/// them, except that a rejected transaction leaves the fresh, empty account of the
/// client it names.
pub proof fn lemma_warned_rows_are_skipped(m: Map<u16, ClientState>, items: Seq<Item>)
    ensures
        runs_agree(run_spec(m, items), run_spec(m, unwarned(m, items))),
{
    lemma_runs_agree_without_warned(m, m, items);
}

} // verus!
