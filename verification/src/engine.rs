//! Transaction engine: owns the per-client state map and dispatches each
//! incoming transaction to the appropriate [`Client`] method.
use vstd::prelude::*;

use std::collections::HashMap;
use vstd::std_specs::hash::{axiom_spec_hash_map_iter, spec_hash_map_iter};
use vstd::std_specs::iter::IteratorSpec;

use crate::amount::{decimal_checked_add, decimal_checked_sub, difference_facts, fits_at_scale, max_scale, sum_facts, Amount};
use crate::client::{
    lemma_deposit_takes_effect, lemma_withdrawal_takes_effect, Client, ClientState, DisputeState, RecordedTx, RecordedTxKind,
};
use crate::error::{engine_error_text, fatal_error, parse_error_text, starts_with, EngineError, ParseError};
use crate::io::{snapshot_of, ClientSnapshot};
use crate::transaction::{Transaction, TransactionKind};

verus! {

/// The amount a transaction carries, zero when it carries none.
pub open spec fn amount_or_zero(tx: Transaction) -> Amount {
    match tx.amount {
        Some(a) => a,
        None => Amount::zero_value(),
    }
}

/// The account that `tx` is applied to: the existing one, or a fresh one.
pub open spec fn account_for(m: Map<u16, ClientState>, client: u16) -> ClientState {
    if m.contains_key(client) {
        m[client]
    } else {
        ClientState::initial()
    }
}

/// The account after `tx` and the result, or `None` when a balance overflows.
pub open spec fn apply_spec(c: ClientState, tx: Transaction) -> Option<(ClientState, Result<(), EngineError>)> {
    match tx.kind {
        TransactionKind::Deposit => c.deposit_spec(tx.tx, amount_or_zero(tx)),
        TransactionKind::Withdrawal => c.withdraw_spec(tx.tx, amount_or_zero(tx)),
        TransactionKind::Dispute => match c.dispute_spec(tx.tx) {
            Some(c2) => Some((c2, Ok(()))),
            None => None,
        },
        TransactionKind::Resolve => match c.resolve_spec(tx.tx) {
            Some(c2) => Some((c2, Ok(()))),
            None => None,
        },
        TransactionKind::Chargeback => match c.chargeback_spec(tx.tx) {
            Some(c2) => Some((c2, Ok(()))),
            None => None,
        },
    }
}

/// Whether `tx` adds funds to or removes funds from an account.
pub open spec fn moves_funds(tx: Transaction) -> bool {
    tx.kind == TransactionKind::Deposit || tx.kind == TransactionKind::Withdrawal
}

/// Whether an account other than that of `client` has recorded the id `t`.
pub open spec fn recorded_elsewhere(m: Map<u16, ClientState>, client: u16, t: u32) -> bool {
    exists|k: u16| k != client && m.contains_key(k) && #[trigger] m[k].history.contains_key(t)
}

/// Whether no transaction id is recorded by two accounts.
pub open spec fn ids_unique(m: Map<u16, ClientState>) -> bool {
    forall|k1: u16, k2: u16, t: u32|
        m.contains_key(k1) && m.contains_key(k2) && #[trigger] m[k1].history.contains_key(t)
            && #[trigger] m[k2].history.contains_key(t) ==> k1 == k2
}

/// A deposit or withdrawal whose id another account already recorded is a duplicate:
/// it changes nothing and, unless the account is locked or the amount is negative
/// (which come first, as in the account itself), is reported as `DuplicateTxId`.
pub open spec fn foreign_duplicate(c: ClientState, tx: Transaction) -> Result<(), EngineError> {
    if c.locked {
        Ok(())
    } else if amount_or_zero(tx).units() < 0 {
        Err(EngineError::NegativeAmount { tx: tx.tx })
    } else {
        Err(EngineError::DuplicateTxId { tx: tx.tx })
    }
}

/// Processing `tx` against the accounts `m`: the account of `tx.client` (created if
/// new) takes the transaction; no other account changes. Transaction ids are unique
/// across all accounts: a deposit or withdrawal under an id that another account has
/// recorded is a duplicate. `None` when a balance overflows.
pub open spec fn process_spec(m: Map<u16, ClientState>, tx: Transaction) -> Option<(Map<u16, ClientState>, Result<(), EngineError>)> {
    let c = account_for(m, tx.client);
    if moves_funds(tx) && recorded_elsewhere(m, tx.client, tx.tx) {
        Some((m.insert(tx.client, c), foreign_duplicate(c, tx)))
    } else {
        match apply_spec(c, tx) {
            Some((c2, r)) => Some((m.insert(tx.client, c2), r)),
            None => None,
        }
    }
}

/// What is known of the decimal arithmetic that processing `tx` performs.
pub open spec fn step_facts(m: Map<u16, ClientState>, tx: Transaction) -> bool {
    let c = account_for(m, tx.client);
    !(moves_funds(tx) && recorded_elsewhere(m, tx.client, tx.tx)) ==> match tx.kind {
        TransactionKind::Deposit => c.deposit_facts(tx.tx, amount_or_zero(tx)),
        TransactionKind::Withdrawal => c.withdraw_facts(tx.tx, amount_or_zero(tx)),
        TransactionKind::Dispute => c.dispute_facts(tx.tx),
        TransactionKind::Resolve => c.resolve_facts(tx.tx),
        TransactionKind::Chargeback => c.chargeback_facts(tx.tx),
    }
}

/// Whether every account's balances are in range.
pub open spec fn balances_in_range(m: Map<u16, ClientState>) -> bool {
    forall|k: u16| m.contains_key(k) ==> (#[trigger] m[k]).balances_in_range()
}

/// What is known of the decimal sum that each account's total is.
pub open spec fn totals_facts(m: Map<u16, ClientState>) -> bool {
    forall|k: u16| m.contains_key(k) ==> sum_facts((#[trigger] m[k]).available, m[k].held)
}

/// An account's history keeps its ids, and only a deposit or withdrawal adds one:
/// the id it names.
pub proof fn lemma_apply_history(c: ClientState, tx: Transaction, t: u32)
    ensures
        apply_spec(c, tx) matches Some((d, _)) ==> (c.history.contains_key(t) ==> d.history.contains_key(t)) && (
        d.history.contains_key(t) && !c.history.contains_key(t) ==> t == tx.tx && moves_funds(tx)),
{
}

/// `s` lists one snapshot per account of `m`, in some order.
pub open spec fn lists_snapshots(m: Map<u16, ClientState>, s: Seq<ClientSnapshot>) -> bool {
    &&& s.len() == m.dom().len()
    &&& forall|i: int|
        0 <= i < s.len() ==> #[trigger] m.contains_key(s[i].client) && snapshot_of(s[i].client, m[s[i].client])
            == Some(s[i])
    &&& forall|i: int, j: int| 0 <= i < j < s.len() ==> #[trigger] s[i].client != #[trigger] s[j].client
    &&& forall|k: u16| m.contains_key(k) ==> exists|i: int| 0 <= i < s.len() && #[trigger] s[i].client == k
}

/// Whether the total of every account of `m` is within range.
pub open spec fn totals_defined(m: Map<u16, ClientState>) -> bool {
    forall|k: u16| m.contains_key(k) ==> (#[trigger] m[k]).total_spec() is Some
}

/// The engine: one account per client id seen so far.
pub struct Engine {
    clients: HashMap<u16, Client>,
    /// The account that recorded each transaction id.
    owners: HashMap<u32, u16>,
}

impl View for Engine {
    type V = Map<u16, ClientState>;

    closed spec fn view(&self) -> Map<u16, ClientState> {
        self.clients@.map_values(|c: Client| c@)
    }
}

impl Default for Engine {
    fn default() -> (res: Self)
        ensures
            res@ == Map::<u16, ClientState>::empty(),
            res.wf(),
    {
        Engine::new()
    }
}

/// The step the command line takes after one input item.
#[derive(Debug)]
pub enum Step {
    /// Go on with the next item.
    Continue,
    /// Report the message as a warning and go on.
    Warn(String),
    /// Report the message as an error and stop, with no output.
    Fatal(String),
}

/// Which step follows an item.
#[derive(Clone, Copy, Debug, PartialEq, Eq, Structural)]
pub enum Outcome {
    Continue,
    Warn,
    Fatal,
}

impl Step {
    /// Which kind of step this is.
    pub open spec fn outcome(self) -> Outcome {
        match self {
            Step::Continue => Outcome::Continue,
            Step::Warn(_) => Outcome::Warn,
            Step::Fatal(_) => Outcome::Fatal,
        }
    }
}

/// One input item: a transaction with its row number, or why a row (or the
/// input) could not be read.
pub type Item = Result<(Transaction, usize), ParseError>;

/// The error-handling policy for one item: a transaction is processed, and a
/// rejected one (negative amount, duplicate id) is warned about; a malformed row is
/// warned about and skipped; an unreadable input or a wrong header is fatal and
/// changes nothing. `None` when a balance overflows.
pub open spec fn handle_spec(m: Map<u16, ClientState>, item: Item) -> Option<(Map<u16, ClientState>, Outcome)> {
    match item {
        Ok((tx, _)) => match process_spec(m, tx) {
            None => None,
            Some((m2, Ok(()))) => Some((m2, Outcome::Continue)),
            Some((m2, Err(_))) => Some((m2, Outcome::Warn)),
        },
        Err(e) => Some(
            (
                m,
                if fatal_error(e) {
                    Outcome::Fatal
                } else {
                    Outcome::Warn
                },
            ),
        ),
    }
}

impl Engine {
    /// The engine's internal bookkeeping is consistent: the recorded owner of each
    /// transaction id is the one account that recorded it, and balances are in range.
    pub closed spec fn wf(&self) -> bool {
        &&& forall|t: u32| #[trigger]
            self.owners@.contains_key(t) ==> self@.contains_key(self.owners@[t]) && self@[self.owners@[t]].history.contains_key(t)
        &&& forall|k: u16, t: u32|
            self@.contains_key(k) && #[trigger] self@[k].history.contains_key(t) ==> self.owners@.contains_key(t)
                && self.owners@[t] == k
        &&& balances_in_range(self@)
    }

    /// A consistent engine records each transaction id in at most one account.
    pub proof fn lemma_wf_ids_unique(&self)
        requires
            self.wf(),
        ensures
            ids_unique(self@),
            balances_in_range(self@),
    {
    }

    /// An engine with no accounts.
    pub fn new() -> (res: Self)
        ensures
            res@ == Map::<u16, ClientState>::empty(),
            res.wf(),
    {
        let res = Engine { clients: HashMap::new(), owners: HashMap::new() };
        assert(res@ =~= Map::<u16, ClientState>::empty());
        res
    }

    /// One snapshot per account, in the map's iteration order, or `None` when the
    /// total of some account overflows.
    pub fn try_snapshots(&self) -> (res: Option<Vec<ClientSnapshot>>)
        ensures
            res is Some <==> totals_defined(self@),
            res matches Some(v) ==> lists_snapshots(self@, v@),
            totals_facts(self@),
    {
        let mut out: Vec<ClientSnapshot> = Vec::new();
        let mut ok = true;
        let ghost m = self.clients@;
        let ghost entries = spec_hash_map_iter(&self.clients).remaining();
        proof {
            axiom_spec_hash_map_iter(&self.clients);
        }
        for (id, client) in it: self.clients.iter()
            invariant
                m == self.clients@,
                it.seq() == entries,
                entries == spec_hash_map_iter(&self.clients).remaining(),
                forall|i: int| 0 <= i < it.index() ==> sum_facts((#[trigger] it.seq()[i]).1@.available, it.seq()[i].1@.held),
                ok ==> out@.len() == it.index(),
                ok ==> forall|i: int| 0 <= i < it.index() ==> Some(#[trigger] out@[i]) == snapshot_of(*it.seq()[i].0, it.seq()[i].1@),
                ok ==> forall|i: int| 0 <= i < it.index() ==> out@[i].client == *it.seq()[i].0,
                !ok ==> exists|i: int| 0 <= i < it.index() && (#[trigger] it.seq()[i]).1@.total_spec() is None,
        {
            let snap = ClientSnapshot::try_from_client(*id, client);
            proof {
                assert(sum_facts(it.seq()[it.index()].1@.available, it.seq()[it.index()].1@.held));
            }
            match snap {
                Some(snap) => {
                    if ok {
                        out.push(snap);
                    }
                },
                None => {
                    ok = false;
                    assert(it.seq()[it.index()].1@.total_spec() is None);
                },
            }
        }
        proof {
            assert forall|k: u16| self@.contains_key(k) implies sum_facts((#[trigger] self@[k]).available, self@[k].held) by {
                assert(m.contains_key(k));
                assert(entries.contains((&k, &m[k])));
                let i = choose|i: int| 0 <= i < entries.len() && entries[i] == (&k, &m[k]);
                assert(sum_facts(entries[i].1@.available, entries[i].1@.held));
            }
        }
        if !ok {
            proof {
                let i = choose|i: int| 0 <= i < entries.len() && (#[trigger] entries[i]).1@.total_spec() is None;
                let k = *entries[i].0;
                assert(m.contains_key(k) && m[k] == *entries[i].1);
                assert(self@.contains_key(k) && self@[k] == m[k]@);
            }
            return None;
        }
        proof {
            let v = out@;
            assert forall|k: u16| self@.contains_key(k) implies (#[trigger] self@[k]).total_spec() is Some by {
                assert(m.contains_key(k));
                assert(entries.contains((&k, &m[k])));
                let i = choose|i: int| 0 <= i < entries.len() && entries[i] == (&k, &m[k]);
                assert(Some(v[i]) == snapshot_of(k, m[k]@));
            }
            assert forall|i: int| 0 <= i < v.len() implies #[trigger] self@.contains_key(v[i].client)
                && snapshot_of(v[i].client, self@[v[i].client]) == Some(v[i]) by {
                assert(m.contains_key(*entries[i].0) && m[*entries[i].0] == *entries[i].1);
            }
            assert forall|i: int, j: int| 0 <= i < j < v.len() implies #[trigger] v[i].client != #[trigger] v[j].client by {
                if v[i].client == v[j].client {
                    assert(m.contains_key(*entries[i].0) && m[*entries[i].0] == *entries[i].1);
                    assert(m.contains_key(*entries[j].0) && m[*entries[j].0] == *entries[j].1);
                    assert(entries[i] == entries[j]);
                }
            }
            assert forall|k: u16| self@.contains_key(k) implies exists|i: int| 0 <= i < v.len() && #[trigger] v[i].client == k by {
                assert(m.contains_key(k));
                assert(entries.contains((&k, &m[k])));
                let i = choose|i: int| 0 <= i < entries.len() && entries[i] == (&k, &m[k]);
                assert(v[i].client == k);
            }
            assert(self@.dom() =~= m.dom());
        }
        Some(out)
    }

    /// Returns the account snapshots, one per client, in unspecified order.
    pub fn snapshots(&self) -> (res: Vec<ClientSnapshot>)
        requires
            totals_defined(self@),
        ensures
            lists_snapshots(self@, res@),
            totals_facts(self@),
    {
        match self.try_snapshots() {
            Some(v) => v,
            None => Vec::new(),
        }
    }

    /// Applies `tx` to the account of `tx.client`, creating the account if it has not
    /// been seen before, or reports `None` (changing nothing) when a balance would overflow.
    pub fn try_process(&mut self, tx: Transaction) -> (res: Option<Result<(), EngineError>>)
        requires
            old(self).wf(),
        ensures
            match res {
                Some(r) => process_spec(old(self)@, tx) == Some((final(self)@, r)),
                None => process_spec(old(self)@, tx) is None && final(self)@ == old(self)@,
            },
            step_facts(old(self)@, tx),
            final(self).wf(),
    {
        let ghost old_m = self@;
        let ghost old_clients = self.clients@;
        let moves = match tx.kind {
            TransactionKind::Deposit | TransactionKind::Withdrawal => true,
            _ => false,
        };
        let foreign = moves && match self.owners.get(&tx.tx) {
            Some(owner) => *owner != tx.client,
            None => false,
        };
        proof {
            if moves {
                if self.owners@.contains_key(tx.tx) && self.owners@[tx.tx] != tx.client {
                    assert(old_m.contains_key(self.owners@[tx.tx]) && old_m[self.owners@[tx.tx]].history.contains_key(tx.tx));
                    assert(recorded_elsewhere(old_m, tx.client, tx.tx));
                } else {
                    assert(!recorded_elsewhere(old_m, tx.client, tx.tx)) by {
                        if recorded_elsewhere(old_m, tx.client, tx.tx) {
                            let k = choose|k: u16| k != tx.client && old_m.contains_key(k) && #[trigger] old_m[k].history.contains_key(tx.tx);
                            assert(self.owners@.contains_key(tx.tx) && self.owners@[tx.tx] == k);
                        }
                    }
                }
            }
        }
        let removed = self.clients.remove(&tx.client);
        let existed = removed.is_some();
        let mut client = match removed {
            Some(c) => c,
            None => Client::new(),
        };
        let ghost c0 = client@;
        assert(c0 == account_for(old_m, tx.client));
        assert(c0.balances_in_range());
        let amount = match tx.amount {
            Some(a) => a,
            None => Amount::zero(),
        };
        let res = if foreign {
            if client.locked() {
                Some(Ok(()))
            } else if amount.less_than(&Amount::zero()) {
                proof {
                    Amount::lemma_zero_value();
                }
                Some(Err(EngineError::NegativeAmount { tx: tx.tx }))
            } else {
                proof {
                    Amount::lemma_zero_value();
                }
                Some(Err(EngineError::DuplicateTxId { tx: tx.tx }))
            }
        } else {
            match tx.kind {
                TransactionKind::Deposit => client.try_deposit(tx.tx, amount),
                TransactionKind::Withdrawal => Some(client.withdraw(tx.tx, amount)),
                TransactionKind::Dispute => match client.try_dispute(tx.tx) {
                    Some(_) => Some(Ok(())),
                    None => None,
                },
                TransactionKind::Resolve => match client.try_resolve(tx.tx) {
                    Some(_) => Some(Ok(())),
                    None => None,
                },
                TransactionKind::Chargeback => match client.try_chargeback(tx.tx) {
                    Some(_) => Some(Ok(())),
                    None => None,
                },
            }
        };
        let ghost c1 = client@;
        let ghost cc = client;
        proof {
            lemma_apply_history(c0, tx, tx.tx);
            assert forall|t: u32| c1.history.contains_key(t) && !c0.history.contains_key(t) implies t == tx.tx && moves by {
                lemma_apply_history(c0, tx, t);
            }
            assert forall|t: u32| c0.history.contains_key(t) implies c1.history.contains_key(t) by {
                lemma_apply_history(c0, tx, t);
            }
        }
        let recorded = moves && client.is_recorded(tx.tx);
        if res.is_some() || existed {
            self.clients.insert(tx.client, client);
            assert(self.clients@ =~= old_clients.remove(tx.client).insert(tx.client, cc));
            assert(self@ =~= old_m.insert(tx.client, c1));
        } else {
            assert(self.clients@ =~= old_clients);
        }
        if res.is_some() && recorded {
            self.owners.insert(tx.tx, tx.client);
        }
        proof {
            let m1 = self@;
            assert forall|t: u32| #[trigger] self.owners@.contains_key(t) implies m1.contains_key(self.owners@[t])
                && m1[self.owners@[t]].history.contains_key(t) by {
                if res.is_some() && recorded && t == tx.tx {
                } else {
                    let k = self.owners@[t];
                    assert(old_m.contains_key(k) && old_m[k].history.contains_key(t));
                    if k == tx.client {
                        assert(c0.history.contains_key(t));
                    }
                }
            }
            assert forall|k: u16, t: u32| m1.contains_key(k) && #[trigger] m1[k].history.contains_key(t) implies self.owners@.contains_key(t)
                && self.owners@[t] == k by {
                if k == tx.client {
                    if c0.history.contains_key(t) {
                        if existed {
                            assert(old_m.contains_key(k) && old_m[k].history.contains_key(t));
                        } else {
                            assert(c0.history == Map::<u32, RecordedTx>::empty());
                        }
                    } else {
                        assert(t == tx.tx && moves);
                        assert(c1.history.contains_key(tx.tx));
                        assert(res.is_some());
                    }
                } else {
                    assert(old_m.contains_key(k) && old_m[k].history.contains_key(t));
                    if t == tx.tx && res.is_some() && recorded {
                        assert(c1.history.contains_key(tx.tx));
                        if c0.history.contains_key(tx.tx) {
                            if existed {
                                assert(old_m[tx.client].history.contains_key(tx.tx));
                            } else {
                                assert(c0.history == Map::<u32, RecordedTx>::empty());
                            }
                        } else {
                            assert(!foreign);
                            assert(recorded_elsewhere(old_m, tx.client, tx.tx));
                        }
                    }
                }
            }
            assert forall|k: u16| m1.contains_key(k) implies (#[trigger] m1[k]).balances_in_range() by {
                if k != tx.client {
                    assert(old_m.contains_key(k));
                }
            }
        }
        res
    }

    /// Applies `tx` to the appropriate client account, creating the client if it
    /// has not been seen before.
    ///
    /// Returns `Err` only for conditions worth surfacing as warnings (negative
    /// amount, duplicate tx id). Business-rule failures (insufficient funds,
    /// wrong dispute state, locked account) are silent no-ops.
    pub fn process(&mut self, tx: Transaction) -> (res: Result<(), EngineError>)
        requires
            old(self).wf(),
            process_spec(old(self)@, tx) is Some,
        ensures
            process_spec(old(self)@, tx) == Some((final(self)@, res)),
            step_facts(old(self)@, tx),
            final(self).wf(),
    {
        match self.try_process(tx) {
            Some(r) => r,
            None => Ok(()),
        }
    }

    /// Takes the step the error-handling policy gives for one input item (see
    /// [`handle_spec`]), with the message to report, or reports `None` (changing
    /// nothing) when a balance would overflow.
    pub fn handle(&mut self, item: Item) -> (res: Option<Step>)
        requires
            old(self).wf(),
        ensures
            final(self).wf(),
            match res {
                None => handle_spec(old(self)@, item) is None && final(self)@ == old(self)@,
                Some(step) => handle_spec(old(self)@, item) == Some((final(self)@, step.outcome())),
            },
            item matches Ok((tx, _)) ==> step_facts(old(self)@, tx),
            res matches Some(Step::Warn(text)) ==> match item {
                Ok((tx, _)) => process_spec(old(self)@, tx) matches Some((_, Err(e))) && engine_error_text(e) == Some(text@),
                Err(e) => parse_error_text(e) == Some(text@),
            },
            res matches Some(Step::Fatal(text)) ==> item matches Err(e) && (parse_error_text(e) matches Some(t) ==> text@
                == t) && (e is Io || e is Csv ==> starts_with(text@, "I/O error: "@)),
    {
        match item {
            Ok((tx, _)) => match self.try_process(tx) {
                None => None,
                Some(Ok(())) => Some(Step::Continue),
                Some(Err(e)) => {
                    proof {
                        self.lemma_process_errors(old(self)@, tx);
                    }
                    Some(Step::Warn(e.message()))
                },
            },
            Err(e) => {
                if e.is_fatal() {
                    Some(Step::Fatal(e.fatal_message()))
                } else {
                    proof {
                        assert(parse_error_text(e) is Some);
                    }
                    Some(Step::Warn(e.message()))
                }
            },
        }
    }

    /// Processing only ever reports a negative amount or a duplicate id.
    proof fn lemma_process_errors(&self, m: Map<u16, ClientState>, tx: Transaction)
        ensures
            process_spec(m, tx) matches Some((_, Err(e))) ==> engine_error_text(e) is Some,
    {
    }
}

} // verus!

verus! {

/// Processing a transaction touches only the account it names: that account
/// exists afterwards (created if new), and every other account is unchanged.
pub proof fn lemma_process_touches_one_account(m: Map<u16, ClientState>, tx: Transaction, k: u16)
    requires
        process_spec(m, tx) is Some,
    ensures
        process_spec(m, tx) matches Some((m2, _)) && m2.contains_key(tx.client) && m2.dom() == m.dom().insert(
            tx.client,
        ) && (k != tx.client ==> m2.contains_key(k) == m.contains_key(k)) && (k != tx.client && m.contains_key(k)
            ==> m2[k] == m[k]),
{
    let m2 = process_spec(m, tx)->0;
    assert(m2.0.dom() =~= m.dom().insert(tx.client));
}

/// A dispute, resolve or chargeback that names a transaction the client's own
/// account does not hold (for instance one of another client) is a silent no-op:
/// no balance anywhere changes, and only the account of the naming client is
/// created if it is new.
pub proof fn lemma_foreign_reference_is_ignored(m: Map<u16, ClientState>, tx: Transaction)
    requires
        tx.kind == TransactionKind::Dispute || tx.kind == TransactionKind::Resolve || tx.kind
            == TransactionKind::Chargeback,
        !account_for(m, tx.client).history.contains_key(tx.tx),
    ensures
        process_spec(m, tx) == Some(
            (m.insert(tx.client, account_for(m, tx.client)), Ok::<(), EngineError>(()))
        ),
{
}

} // verus!

verus! {

/// Transaction ids stay unique across accounts: processing never records an id in
/// a second account.
pub proof fn lemma_process_keeps_ids_unique(m: Map<u16, ClientState>, tx: Transaction)
    requires
        ids_unique(m),
    ensures
        process_spec(m, tx) matches Some((m2, _)) ==> ids_unique(m2),
{
    if process_spec(m, tx) is Some {
        let (m2, _) = process_spec(m, tx)->0;
        let c = account_for(m, tx.client);
        assert forall|k1: u16, k2: u16, t: u32|
            m2.contains_key(k1) && m2.contains_key(k2) && #[trigger] m2[k1].history.contains_key(t)
                && #[trigger] m2[k2].history.contains_key(t) implies k1 == k2 by {
            lemma_apply_history(c, tx, t);
            if k1 != k2 {
                if k1 == tx.client || k2 == tx.client {
                    let other = if k1 == tx.client { k2 } else { k1 };
                    assert(m.contains_key(other) && m[other].history.contains_key(t));
                    if c.history.contains_key(t) {
                        assert(m.contains_key(tx.client));
                    } else {
                        assert(recorded_elsewhere(m, tx.client, t));
                    }
                }
            }
        }
    }
}

} // verus!

verus! {

/// The account after the transactions `txs` in order, each taken as the matching
/// call on the account, with the result of each call; `None` when a balance
/// overflows on the way.
pub open spec fn apply_all(c: ClientState, txs: Seq<Transaction>) -> Option<(ClientState, Seq<Result<(), EngineError>>)>
    decreases txs.len(),
{
    if txs.len() == 0 {
        Some((c, Seq::empty()))
    } else {
        match apply_spec(c, txs[0]) {
            None => None,
            Some((c1, r)) => match apply_all(c1, txs.drop_first()) {
                None => None,
                Some((c2, rs)) => Some((c2, seq![r] + rs)),
            },
        }
    }
}

/// A locked account stays frozen over any sequence of calls: nothing changes, and
/// every call answers `Ok`.
pub proof fn lemma_locked_account_stays_frozen(c: ClientState, txs: Seq<Transaction>)
    requires
        c.locked,
    ensures
        apply_all(c, txs) == Some((c, Seq::new(txs.len(), |i: int| Ok::<(), EngineError>(())))),
    decreases txs.len(),
{
    if txs.len() > 0 {
        lemma_locked_account_stays_frozen(c, txs.drop_first());
        let rs = Seq::new((txs.len() - 1) as nat, |i: int| Ok::<(), EngineError>(()));
        assert(seq![Ok::<(), EngineError>(())] + rs =~= Seq::new(txs.len(), |i: int| Ok::<(), EngineError>(())));
    }
}

/// An account locks only through a chargeback that takes effect: one call locks an
/// unlocked account only when it is the chargeback of a disputed transaction, which
/// is then charged back.
pub proof fn lemma_lock_comes_from_chargeback(c: ClientState, tx: Transaction)
    requires
        !c.locked,
        apply_spec(c, tx) matches Some((d, _)) && d.locked,
    ensures
        tx.kind == TransactionKind::Chargeback,
        c.tx_in_state(tx.tx, DisputeState::Disputed),
        apply_spec(c, tx) matches Some((d, _)) && d.tx_in_state(tx.tx, DisputeState::ChargedBack),
{
}

/// Over a sequence of calls, an account that starts unlocked and ends locked went
/// through a chargeback of a transaction that was disputed when it came.
pub proof fn lemma_locked_by_some_chargeback(c: ClientState, txs: Seq<Transaction>)
    requires
        !c.locked,
        apply_all(c, txs) matches Some((d, _)) && d.locked,
    ensures
        exists|i: int|
            0 <= i < txs.len() && (#[trigger] txs[i]).kind == TransactionKind::Chargeback && (apply_all(c, txs.take(i)) matches Some((p, _)) && !p.locked
                && p.tx_in_state(txs[i].tx, DisputeState::Disputed)),
    decreases txs.len(),
{
    let (c1, _) = apply_spec(c, txs[0])->0;
    assert(txs.take(0) =~= Seq::<Transaction>::empty());
    if c1.locked {
        lemma_lock_comes_from_chargeback(c, txs[0]);
        assert(apply_all(c, txs.take(0)) == Some((c, Seq::<Result<(), EngineError>>::empty())));
    } else {
        let rest = txs.drop_first();
        lemma_locked_by_some_chargeback(c1, rest);
        let j = choose|j: int|
            0 <= j < rest.len() && (#[trigger] rest[j]).kind == TransactionKind::Chargeback && (apply_all(c1, rest.take(j)) matches Some((p, _)) && !p.locked
                && p.tx_in_state(rest[j].tx, DisputeState::Disputed));
        let pre = txs.take(j + 1);
        assert(pre[0] == txs[0]);
        assert(pre.drop_first() =~= rest.take(j));
        assert(txs[j + 1] == rest[j]);
    }
}

} // verus!

verus! {

/// Whether no account has recorded the id `t`.
pub open spec fn id_is_new(m: Map<u16, ClientState>, t: u32) -> bool {
    forall|k: u16| #[trigger] m.contains_key(k) ==> !m[k].history.contains_key(t)
}

/// Processing a deposit or withdrawal under an id that no other account has recorded
/// is the client's own call on its account (a fresh one if it is new), whatever the
/// account's balances: the account becomes what that call leaves, the answer is
/// that call's answer, and no other account changes. A dispute, resolution or
/// chargeback is likewise the client's own call, answered `Ok`.
pub proof fn lemma_process_is_the_accounts_call(m: Map<u16, ClientState>, tx: Transaction)
    requires
        moves_funds(tx) ==> !recorded_elsewhere(m, tx.client, tx.tx),
        moves_funds(tx) ==> tx.amount is Some,
    ensures
        ({
            let c = account_for(m, tx.client);
            let a = tx.amount->0;
            let call = match tx.kind {
                TransactionKind::Deposit => c.deposit_spec(tx.tx, a),
                TransactionKind::Withdrawal => c.withdraw_spec(tx.tx, a),
                TransactionKind::Dispute => match c.dispute_spec(tx.tx) {
                    Some(d) => Some((d, Ok::<(), EngineError>(()))),
                    None => None,
                },
                TransactionKind::Resolve => match c.resolve_spec(tx.tx) {
                    Some(d) => Some((d, Ok::<(), EngineError>(()))),
                    None => None,
                },
                TransactionKind::Chargeback => match c.chargeback_spec(tx.tx) {
                    Some(d) => Some((d, Ok::<(), EngineError>(()))),
                    None => None,
                },
            };
            match call {
                Some((d, r)) => process_spec(m, tx) == Some((m.insert(tx.client, d), r)),
                None => process_spec(m, tx) is None,
            }
        }),
{
}

/// A deposit of a non-negative amount under an id no account has recorded, to a
/// client whose account is not locked (or is new), always takes effect, whatever
/// the account's balances: its available balance becomes the decimal sum of the
/// old one and the amount (exactly their sum when that fits), held stays, the id is
/// recorded as a normal deposit, the answer is `Ok`, and no other account changes.
pub proof fn lemma_process_deposit_takes_effect(m: Map<u16, ClientState>, tx: Transaction, a: Amount)
    requires
        tx.kind == TransactionKind::Deposit,
        tx.amount == Some(a),
        a.units() >= 0,
        id_is_new(m, tx.tx),
        !account_for(m, tx.client).locked,
    ensures
        ({
            let c = account_for(m, tx.client);
            &&& decimal_checked_add(c.available, a) matches Some(v) ==> process_spec(m, tx) == Some(
                (
                    m.insert(
                        tx.client,
                        ClientState {
                            available: v,
                            held: c.held,
                            locked: false,
                            history: c.history.insert(
                                tx.tx,
                                RecordedTx { amount: a, kind: RecordedTxKind::Deposit, state: DisputeState::Normal },
                            ),
                        },
                    ),
                    Ok::<(), EngineError>(()),
                ),
            )
            &&& decimal_checked_add(c.available, a) is None ==> process_spec(m, tx) is None
            &&& sum_facts(c.available, a) && fits_at_scale(
                c.available.units() + a.units(),
                max_scale(c.available.frac_digits(), a.frac_digits()),
            ) ==> (process_spec(m, tx) matches Some((m2, r)) && r is Ok && m2[tx.client].available.units()
                == c.available.units() + a.units() && m2[tx.client].held == c.held)
        }),
{
    let c = account_for(m, tx.client);
    assert(!c.history.contains_key(tx.tx));
    lemma_deposit_takes_effect(c, tx.tx, a);
}

/// A withdrawal of a non-negative amount no larger than the available balance,
/// under an id no account has recorded, from a client whose account is not locked,
/// always takes effect, whatever the held balance: its available balance becomes
/// the decimal difference, held stays, the id is recorded as a normal withdrawal,
/// the answer is `Ok`, and no other account changes.
pub proof fn lemma_process_withdrawal_takes_effect(m: Map<u16, ClientState>, tx: Transaction, a: Amount)
    requires
        tx.kind == TransactionKind::Withdrawal,
        tx.amount == Some(a),
        0 <= a.units() <= account_for(m, tx.client).available.units(),
        id_is_new(m, tx.tx),
        !account_for(m, tx.client).locked,
    ensures
        ({
            let c = account_for(m, tx.client);
            &&& decimal_checked_sub(c.available, a) matches Some(v) ==> process_spec(m, tx) == Some(
                (
                    m.insert(
                        tx.client,
                        ClientState {
                            available: v,
                            held: c.held,
                            locked: false,
                            history: c.history.insert(
                                tx.tx,
                                RecordedTx { amount: a, kind: RecordedTxKind::Withdrawal, state: DisputeState::Normal },
                            ),
                        },
                    ),
                    Ok::<(), EngineError>(()),
                ),
            )
            &&& difference_facts(c.available, a) ==> (process_spec(m, tx) matches Some((m2, r)) && r is Ok
                && m2[tx.client].history.contains_key(tx.tx) && m2[tx.client].available.units() >= 0)
        }),
{
    let c = account_for(m, tx.client);
    assert(!c.history.contains_key(tx.tx));
    lemma_withdrawal_takes_effect(c, tx.tx, a);
}

} // verus!

verus! {

/// How an item steers a run: a row that could not be turned into a transaction
/// changes no account, and stops the run exactly when the input itself is at fault
/// (it could not be read, is not CSV, or has the wrong header), otherwise it is
/// warned about; a transaction continues the run when the account accepts it, is
/// warned about when it is refused with an error, and in both cases leaves the
/// accounts as processing it does.
pub proof fn lemma_handle_steers_the_run(m: Map<u16, ClientState>, item: Item)
    ensures
        item matches Err(e) ==> handle_spec(m, item) == Some(
            (
                m,
                if e is Io || e is Csv || e is WrongHeader {
                    Outcome::Fatal
                } else {
                    Outcome::Warn
                },
            ),
        ),
        item matches Ok((tx, _)) ==> match process_spec(m, tx) {
            None => handle_spec(m, item) is None,
            Some((m2, r)) => handle_spec(m, item) matches Some((m3, o)) && m3 == m2 && o != Outcome::Fatal && (o
                == Outcome::Continue) == (r is Ok),
        },
{
}

} // verus!

verus! {

/// Transaction ids are global: a deposit or withdrawal of a non-negative amount,
/// to an unlocked account, under an id that another client's account has recorded
/// is refused as `DuplicateTxId` and changes no balance anywhere (only the naming
/// client's account is created if it is new).
pub proof fn lemma_reused_id_is_refused(m: Map<u16, ClientState>, tx: Transaction, a: Amount)
    requires
        tx.kind == TransactionKind::Deposit || tx.kind == TransactionKind::Withdrawal,
        tx.amount == Some(a),
        a.units() >= 0,
        recorded_elsewhere(m, tx.client, tx.tx),
        !account_for(m, tx.client).locked,
    ensures
        process_spec(m, tx) == Some(
            (
                m.insert(tx.client, account_for(m, tx.client)),
                Err::<(), EngineError>(EngineError::DuplicateTxId { tx: tx.tx }),
            ),
        ),
{
}

} // verus!
