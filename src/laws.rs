//! Properties of the transaction state machine, proved over its model.
use crate::advanced::{mix, route, shard_of};
use crate::common::{
    Accounts, Amount, Client, Policy, Transactions, TxId, TxState, Verdict,
    chargeback_spec, deposit_spec, dispute_spec, fits, resolve_spec, withdrawal_spec,
};
use crate::exec::{TxRequest, replay, step_spec, verdict_at};
use vstd::prelude::*;

verus! {

/// Every account's `available` and `held` add up to its `total`.
pub open spec fn balanced(accs: Accounts) -> bool {
    forall|c: Client| #[trigger] accs.contains_key(c) ==> accs[c].available.0 + accs[c].held.0 == accs[c].total.0
}

proof fn lemma_step_keeps_balance(accs: Accounts, txs: Transactions, policy: Policy, r: TxRequest)
    requires
        balanced(accs),
    ensures
        balanced(step_spec(accs, txs, policy, r).0),
{
}

proof fn lemma_replay_keeps_balance(accs: Accounts, txs: Transactions, policy: Policy, reqs: Seq<TxRequest>)
    requires
        balanced(accs),
    ensures
        balanced(replay(accs, txs, policy, reqs).0),
    decreases reqs.len(),
{
    if reqs.len() > 0 {
        lemma_replay_keeps_balance(accs, txs, policy, reqs.drop_last());
        let (a, t) = replay(accs, txs, policy, reqs.drop_last());
        lemma_step_keeps_balance(a, t, policy, reqs.last());
    }
}

/// Whatever sequence of events is applied to an empty ledger, every account
/// it reaches has `available + held == total`.
pub proof fn lemma_reachable_accounts_balanced(policy: Policy, reqs: Seq<TxRequest>)
    ensures
        balanced(replay(Map::empty(), Map::empty(), policy, reqs).0),
{
    lemma_replay_keeps_balance(Map::empty(), Map::empty(), policy, reqs);
}

proof fn lemma_step_keeps_locked(accs: Accounts, txs: Transactions, policy: Policy, r: TxRequest, c: Client)
    requires
        accs.contains_key(c),
        accs[c].locked,
    ensures
        step_spec(accs, txs, policy, r).0.contains_key(c),
        step_spec(accs, txs, policy, r).0[c] == accs[c],
{
}

/// Once an account is locked, no sequence of events changes it.
pub proof fn lemma_locked_account_frozen(accs: Accounts, txs: Transactions, policy: Policy, reqs: Seq<TxRequest>, c: Client)
    requires
        accs.contains_key(c),
        accs[c].locked,
    ensures
        replay(accs, txs, policy, reqs).0.contains_key(c),
        replay(accs, txs, policy, reqs).0[c] == accs[c],
    decreases reqs.len(),
{
    if reqs.len() > 0 {
        lemma_locked_account_frozen(accs, txs, policy, reqs.drop_last(), c);
        let (a, t) = replay(accs, txs, policy, reqs.drop_last());
        lemma_step_keeps_locked(a, t, policy, reqs.last(), c);
    }
}


/// `txs2` keeps every record of `txs`, with its client and amount.
pub open spec fn keeps_records(txs: Transactions, txs2: Transactions) -> bool {
    forall|t: TxId| #[trigger] txs.contains_key(t) ==> {
        &&& txs2.contains_key(t)
        &&& txs2[t].client == txs[t].client
        &&& txs2[t].amount == txs[t].amount
    }
}

/// A deposit or withdrawal.
pub open spec fn creates_record(r: TxRequest) -> bool {
    r.tx_type == crate::common::TxType::Deposit || r.tx_type == crate::common::TxType::Withdrawal
}

proof fn lemma_step_keeps_records(accs: Accounts, txs: Transactions, policy: Policy, r: TxRequest)
    ensures
        keeps_records(txs, step_spec(accs, txs, policy, r).1),
{
}

proof fn lemma_replay_keeps_records(accs: Accounts, txs: Transactions, policy: Policy, reqs: Seq<TxRequest>)
    ensures
        keeps_records(txs, replay(accs, txs, policy, reqs).1),
    decreases reqs.len(),
{
    if reqs.len() > 0 {
        lemma_replay_keeps_records(accs, txs, policy, reqs.drop_last());
        let (a, t) = replay(accs, txs, policy, reqs.drop_last());
        lemma_step_keeps_records(a, t, policy, reqs.last());
    }
}

/// Every deposit or withdrawal of `reqs` that was applied leaves a record
/// under its id, with its client and amount, that stays for good.
pub proof fn lemma_applied_records_persist(accs: Accounts, txs: Transactions, policy: Policy, reqs: Seq<TxRequest>, i: int)
    requires
        0 <= i < reqs.len(),
        creates_record(reqs[i]),
        verdict_at(accs, txs, policy, reqs, i) == Verdict::Applied,
    ensures
        replay(accs, txs, policy, reqs).1.contains_key(reqs[i].tx_id),
        replay(accs, txs, policy, reqs).1[reqs[i].tx_id].client == reqs[i].client,
        Some(replay(accs, txs, policy, reqs).1[reqs[i].tx_id].amount) == reqs[i].amount,
    decreases reqs.len(),
{
    let front = reqs.drop_last();
    if i < reqs.len() - 1 {
        assert(front.take(i) =~= reqs.take(i));
        lemma_applied_records_persist(accs, txs, policy, front, i);
        let (a, t) = replay(accs, txs, policy, front);
        lemma_step_keeps_records(a, t, policy, reqs.last());
    } else {
        assert(reqs.take(i) =~= front);
    }
}

/// Filtering by a predicate that holds of every element keeps the sequence.
proof fn lemma_filter_all<A>(s: Seq<A>, pred: spec_fn(A) -> bool)
    requires
        forall|i: int| 0 <= i < s.len() ==> pred(#[trigger] s[i]),
    ensures
        s.filter(pred) == s,
    decreases s.len(),
{
    reveal(Seq::filter);
    if s.len() > 0 {
        lemma_filter_all(s.drop_last(), pred);
        assert(s.drop_last().push(s.last()) =~= s);
    }
}

/// Filtering by a predicate that holds of no element leaves nothing.
proof fn lemma_filter_none<A>(s: Seq<A>, pred: spec_fn(A) -> bool)
    requires
        forall|i: int| 0 <= i < s.len() ==> !pred(#[trigger] s[i]),
    ensures
        s.filter(pred) == Seq::<A>::empty(),
    decreases s.len(),
{
    reveal(Seq::filter);
    if s.len() > 0 {
        lemma_filter_none(s.drop_last(), pred);
    }
}

/// For a stream of one client's events, the lane that serves the client
/// receives the whole stream and the other lanes nothing, whatever the
/// number of lanes: its final ledger is the one a single lane reaches.
pub proof fn lemma_single_client_any_concurrency(policy: Policy, reqs: Seq<TxRequest>, c: Client, n: int)
    requires
        n >= 1,
        forall|i: int| 0 <= i < reqs.len() ==> #[trigger] reqs[i].client == c,
    ensures
        0 <= shard_of(c, n) < n,
        route(reqs, n, shard_of(c, n)) == reqs,
        route(reqs, 1, 0) == reqs,
        replay(Map::empty(), Map::empty(), policy, route(reqs, n, shard_of(c, n)))
            == replay(Map::empty(), Map::empty(), policy, route(reqs, 1, 0)),
        forall|lane: int| 0 <= lane < n && lane != shard_of(c, n) ==> #[trigger] route(reqs, n, lane) == Seq::<TxRequest>::empty(),
{
    let m = mix(c);
    assert(0 <= m < 0x1_0000_0000);
    assert(0 <= (m * n) / 0x1_0000_0000 < n) by (nonlinear_arith)
        requires
            0 <= m < 0x1_0000_0000,
            n >= 1,
    ;
    assert(shard_of(c, 1) == 0);
    lemma_filter_all(reqs, |r: TxRequest| shard_of(r.client, n) == shard_of(c, n));
    lemma_filter_all(reqs, |r: TxRequest| shard_of(r.client, 1) == 0);
    assert forall|lane: int| 0 <= lane < n && lane != shard_of(c, n) implies #[trigger] route(reqs, n, lane) == Seq::<TxRequest>::empty() by {
        lemma_filter_none(reqs, |r: TxRequest| shard_of(r.client, n) == lane);
    }
}


/// Applying the same deposit twice leaves the ledger as applying it once;
/// where the first was applied, the second is ignored.
pub proof fn lemma_deposit_idempotent(accs: Accounts, txs: Transactions, client: Client, tx_id: TxId, amount: Amount)
    ensures
        ({
            let first = deposit_spec(accs, txs, client, tx_id, amount);
            let second = deposit_spec(first.0, first.1, client, tx_id, amount);
            &&& second.0 == first.0
            &&& second.1 == first.1
            &&& first.2 == Verdict::Applied ==> second.2 == Verdict::Ignored
        }),
{
}

/// A dispute followed by a resolve of the same transaction returns
/// `available` and `held` to where they were; `total` never moves.
pub proof fn lemma_dispute_then_resolve(accs: Accounts, txs: Transactions, policy: Policy, client: Client, tx_id: TxId)
    requires
        dispute_spec(accs, txs, policy, client, tx_id).2 == Verdict::Applied,
    ensures
        ({
            let disputed = dispute_spec(accs, txs, policy, client, tx_id);
            let resolved = resolve_spec(disputed.0, disputed.1, policy, client, tx_id);
            &&& resolved.2 == Verdict::Applied
            &&& disputed.0[client].total == accs[client].total
            &&& resolved.0[client].available == accs[client].available
            &&& resolved.0[client].held == accs[client].held
            &&& resolved.0[client].total == accs[client].total
        }),
{
}

/// A dispute followed by a chargeback of the same transaction takes exactly
/// its amount off `total` and locks the account (where the new total is an
/// `Amount` at all).
pub proof fn lemma_dispute_then_chargeback(accs: Accounts, txs: Transactions, policy: Policy, client: Client, tx_id: TxId)
    requires
        dispute_spec(accs, txs, policy, client, tx_id).2 == Verdict::Applied,
        fits(accs[client].total.0 - txs[tx_id].amount.0),
    ensures
        ({
            let disputed = dispute_spec(accs, txs, policy, client, tx_id);
            let charged = chargeback_spec(disputed.0, disputed.1, policy, client, tx_id);
            &&& charged.2 == Verdict::Applied
            &&& charged.0[client].total.0 == accs[client].total.0 - txs[tx_id].amount.0
            &&& charged.0[client].locked
        }),
{
}

/// On a balanced, unlocked account, withdrawing exactly `available` succeeds
/// and leaves nothing available; withdrawing any more is rejected and
/// changes nothing.
pub proof fn lemma_withdrawal_boundary(accs: Accounts, txs: Transactions, client: Client, tx_id: TxId, excess: Amount)
    requires
        accs.contains_key(client),
        !accs[client].locked,
        accs[client].available.0 + accs[client].held.0 == accs[client].total.0,
        !txs.contains_key(tx_id),
        excess.0 > accs[client].available.0,
    ensures
        ({
            let exact = withdrawal_spec(accs, txs, client, tx_id, accs[client].available);
            &&& exact.2 == Verdict::Applied
            &&& exact.0[client].available.0 == 0
        }),
        withdrawal_spec(accs, txs, client, tx_id, excess) == (accs, txs, Verdict::Rejected),
{
}

/// A withdrawal's record cannot be disputed, by any client.
pub proof fn lemma_withdrawal_not_disputable(
    accs: Accounts,
    txs: Transactions,
    policy: Policy,
    client: Client,
    tx_id: TxId,
    amount: Amount,
    disputer: Client,
)
    requires
        withdrawal_spec(accs, txs, client, tx_id, amount).2 == Verdict::Applied,
    ensures
        ({
            let w = withdrawal_spec(accs, txs, client, tx_id, amount);
            dispute_spec(w.0, w.1, policy, disputer, tx_id).2 == Verdict::Rejected
        }),
{
}

/// A dispute of a committed deposit larger than the available funds is
/// rejected under the default policy; where negative balances are allowed it
/// goes ahead (where the new balances are `Amount`s at all), leaving
/// `available` below zero and raising `held` by the deposit's amount.
pub proof fn lemma_dispute_beyond_available(accs: Accounts, txs: Transactions, client: Client, tx_id: TxId)
    requires
        txs.contains_key(tx_id),
        txs[tx_id].client == client,
        txs[tx_id].state == TxState::Committed,
        accs.contains_key(client),
        !accs[client].locked,
        txs[tx_id].amount.0 > accs[client].available.0,
    ensures
        dispute_spec(accs, txs, Policy { allow_negative_balance_for_dispute: false }, client, tx_id)
            == (accs, txs, Verdict::Rejected),
        fits(accs[client].available.0 - txs[tx_id].amount.0) && fits(accs[client].held.0 + txs[tx_id].amount.0) ==> {
            let d = dispute_spec(accs, txs, Policy { allow_negative_balance_for_dispute: true }, client, tx_id);
            &&& d.2 == Verdict::Applied
            &&& d.0[client].available.0 < 0
            &&& d.0[client].held.0 == accs[client].held.0 + txs[tx_id].amount.0
        },
{
}

} // verus!
