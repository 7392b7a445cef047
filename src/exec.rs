use crate::common::{
    Account, Accounts, Amount, Client, Ledger, Step, Transactions, TxError, TxId, TxType, Verdict,
    chargeback_spec, deposit_spec, dispute_spec, follows, is_io_error, resolve_spec,
    withdrawal_spec, Policy,
};
use vstd::prelude::*;

verus! {

/// One incoming event. Deposits and withdrawals carry an amount; the other
/// kinds ignore it.
#[derive(Clone, Copy, Debug, PartialEq, Eq, Structural)]
pub struct TxRequest {
    pub tx_type: TxType,
    pub client: Client,
    pub tx_id: TxId,
    pub amount: Option<Amount>,
}

/// One client's balance, as reported in a snapshot.
#[derive(Clone, Copy, Debug, PartialEq, Eq, Structural)]
pub struct AccountState {
    pub client: Client,
    pub available: Amount,
    pub held: Amount,
    pub total: Amount,
    pub locked: bool,
}

/// A fatal failure of a run.
#[derive(Debug)]
pub enum ExecError {
    StringError(String),
    IOError(std::io::Error),
    TxError(TxError),
}

/// A deposit or withdrawal without an amount.
pub open spec fn lacks_amount(r: TxRequest) -> bool {
    (r.tx_type == TxType::Deposit || r.tx_type == TxType::Withdrawal) && r.amount is None
}

/// What one event does to a ledger.
pub open spec fn step_spec(accs: Accounts, txs: Transactions, policy: Policy, r: TxRequest) -> Step {
    if lacks_amount(r) {
        (accs, txs, Verdict::Fault)
    } else {
        match r.tx_type {
            TxType::Deposit => deposit_spec(accs, txs, r.client, r.tx_id, r.amount->0),
            TxType::Withdrawal => withdrawal_spec(accs, txs, r.client, r.tx_id, r.amount->0),
            TxType::Dispute => dispute_spec(accs, txs, policy, r.client, r.tx_id),
            TxType::Resolve => resolve_spec(accs, txs, policy, r.client, r.tx_id),
            TxType::Chargeback => chargeback_spec(accs, txs, policy, r.client, r.tx_id),
        }
    }
}

/// The ledger reached by applying `reqs` in order, each event with the
/// effect that `step_spec` gives it.
pub open spec fn replay(accs: Accounts, txs: Transactions, policy: Policy, reqs: Seq<TxRequest>) -> (Accounts, Transactions)
    decreases reqs.len(),
{
    if reqs.len() == 0 {
        (accs, txs)
    } else {
        let (a, t) = replay(accs, txs, policy, reqs.drop_last());
        let s = step_spec(a, t, policy, reqs.last());
        (s.0, s.1)
    }
}

/// The verdict of the event at index `i` of `reqs`, applied after those before it.
pub open spec fn verdict_at(accs: Accounts, txs: Transactions, policy: Policy, reqs: Seq<TxRequest>, i: int) -> Verdict {
    let (a, t) = replay(accs, txs, policy, reqs.take(i));
    step_spec(a, t, policy, reqs[i]).2
}

/// `state` matches `acc` field for field.
pub open spec fn state_matches(state: AccountState, acc: Account) -> bool {
    &&& state.available == acc.available
    &&& state.held == acc.held
    &&& state.total == acc.total
    &&& state.locked == acc.locked
}

/// Applies one event to the ledger.
pub fn apply_request<L: Ledger>(ledger: &mut L, r: &TxRequest) -> (res: Result<(), TxError>)
    ensures
        final(ledger).policy_spec() == old(ledger).policy_spec(),
        final(ledger).infallible() == old(ledger).infallible(),
        old(ledger).infallible() ==> !is_io_error(res),
        follows(res, step_spec(old(ledger).account_map(), old(ledger).tx_map(), old(ledger).policy_spec(), *r),
            final(ledger).account_map(), final(ledger).tx_map()),
{
    match (r.tx_type, r.amount) {
        (TxType::Deposit, Some(amount)) => ledger.deposit(r.client, r.tx_id, amount),
        (TxType::Deposit, None) => Err(TxError::StringError("deposit has no amount".to_string())),
        (TxType::Withdrawal, Some(amount)) => ledger.withdrawal(r.client, r.tx_id, amount),
        (TxType::Withdrawal, None) => Err(TxError::StringError("withdrawal has no amount".to_string())),
        (TxType::Dispute, _) => ledger.dispute(r.client, r.tx_id),
        (TxType::Resolve, _) => ledger.resolve(r.client, r.tx_id),
        (TxType::Chargeback, _) => ledger.chargeback(r.client, r.tx_id),
    }
}


/// Applies one event as a worker does: rejected and ignored events are
/// expected and count as success; only a fatal error is returned.
pub fn process_request<L: Ledger>(ledger: &mut L, r: &TxRequest) -> (res: Result<(), TxError>)
    ensures
        final(ledger).policy_spec() == old(ledger).policy_spec(),
        final(ledger).infallible() == old(ledger).infallible(),
        old(ledger).infallible() ==> !is_io_error(res),
        !is_io_error(res) ==> {
            let s = step_spec(old(ledger).account_map(), old(ledger).tx_map(), old(ledger).policy_spec(), *r);
            &&& final(ledger).account_map() == s.0
            &&& final(ledger).tx_map() == s.1
            &&& (res is Ok <==> s.2 != Verdict::Fault)
        },
{
    match apply_request(ledger, r) {
        Ok(()) | Err(TxError::Rejected(_)) | Err(TxError::Ignored(_)) => Ok(()),
        Err(e) => Err(e),
    }
}

/// Checks an event's shape before it is dispatched: deposits and withdrawals
/// must carry an amount.
pub fn check_request(r: &TxRequest) -> (res: Result<(), ExecError>)
    ensures
        res is Ok <==> !lacks_amount(*r),
        res is Err ==> res->Err_0 is StringError,
{
    match (r.tx_type, r.amount) {
        (TxType::Deposit, None) | (TxType::Withdrawal, None) => Err(ExecError::StringError("tx has no amount".to_string())),
        _ => Ok(()),
    }
}

/// Applies `reqs` in order. Rejected and ignored events are part of normal
/// operation and do not stop the run; the first fatal one does, and is
/// returned.
pub fn execute_requests<L: Ledger>(reqs: &Vec<TxRequest>, ledger: &mut L) -> (res: Result<(), ExecError>)
    ensures
        final(ledger).policy_spec() == old(ledger).policy_spec(),
        final(ledger).infallible() == old(ledger).infallible(),
        old(ledger).infallible() ==> !(res is Err && res->Err_0 is TxError && is_io_error(Err::<(), TxError>(res->Err_0->TxError_0))),
        !(res is Err && res->Err_0 is TxError && is_io_error(Err::<(), TxError>(res->Err_0->TxError_0))) ==> {
            let (accs, txs, policy) = (old(ledger).account_map(), old(ledger).tx_map(), old(ledger).policy_spec());
            match res {
                Ok(_) => {
                    &&& forall|i: int| 0 <= i < reqs.len() ==> verdict_at(accs, txs, policy, reqs@, i) != Verdict::Fault
                    &&& (final(ledger).account_map(), final(ledger).tx_map()) == replay(accs, txs, policy, reqs@)
                },
                Err(e) => exists|k: int| {
                    &&& 0 <= k < reqs.len()
                    &&& e is TxError
                    &&& verdict_at(accs, txs, policy, reqs@, k) == Verdict::Fault
                    &&& forall|i: int| 0 <= i < k ==> verdict_at(accs, txs, policy, reqs@, i) != Verdict::Fault
                    &&& (final(ledger).account_map(), final(ledger).tx_map()) == replay(accs, txs, policy, reqs@.take(k))
                },
            }
        },
{
    let ghost accs = ledger.account_map();
    let ghost txs = ledger.tx_map();
    let ghost policy = ledger.policy_spec();
    let ghost infallible = ledger.infallible();
    let mut i: usize = 0;
    let mut fatal: Option<TxError> = None;
    while i < reqs.len()
        invariant_except_break
            (ledger.account_map(), ledger.tx_map()) == replay(accs, txs, policy, reqs@.take(i as int)),
            fatal is None,
        invariant
            0 <= i <= reqs.len(),
            ledger.policy_spec() == policy,
            ledger.infallible() == infallible,
            forall|j: int| 0 <= j < i ==> verdict_at(accs, txs, policy, reqs@, j) != Verdict::Fault,
        ensures
            ledger.policy_spec() == policy,
            ledger.infallible() == infallible,
            infallible ==> !(fatal is Some && is_io_error(Err::<(), TxError>(fatal->0))),
            fatal is None ==> i == reqs.len(),
            fatal is None ==> (ledger.account_map(), ledger.tx_map()) == replay(accs, txs, policy, reqs@.take(i as int)),
            fatal is Some ==> {
                &&& i < reqs.len()
                &&& (!is_io_error(Err::<(), TxError>(fatal->0)) ==> {
                    &&& verdict_at(accs, txs, policy, reqs@, i as int) == Verdict::Fault
                    &&& (ledger.account_map(), ledger.tx_map()) == replay(accs, txs, policy, reqs@.take(i as int))
                })
            },
            forall|j: int| 0 <= j < i ==> verdict_at(accs, txs, policy, reqs@, j) != Verdict::Fault,
        decreases reqs.len() - i,
    {
        proof {
            assert(reqs@.take(i as int + 1).drop_last() =~= reqs@.take(i as int));
        }
        if let Err(e) = process_request(ledger, &reqs[i]) {
            fatal = Some(e);
            break;
        }
        i = i + 1;
    }
    match fatal {
        Some(e) => Err(ExecError::TxError(e)),
        None => {
            proof {
                assert(reqs@.take(reqs.len() as int) =~= reqs@);
            }
            Ok(())
        },
    }
}


/// Every record of `expected` names an account of `accs` whose fields it matches.
pub open spec fn all_match(expected: Seq<AccountState>, accs: Accounts) -> bool {
    forall|i: int| 0 <= i < expected.len() ==> {
        &&& #[trigger] accs.contains_key(expected[i].client)
        &&& state_matches(expected[i], accs[expected[i].client])
    }
}

/// Checks that each record of `expected` matches the ledger's account of
/// that client.
pub fn validate_accounts<L: Ledger>(expected: &Vec<AccountState>, ledger: &L) -> (res: Result<(), ExecError>)
    ensures
        ledger.infallible() ==> !(res is Err && res->Err_0 is IOError),
        !(res is Err && res->Err_0 is IOError) ==> (res is Ok <==> all_match(expected@, ledger.account_map())),
{
    let mut i: usize = 0;
    while i < expected.len()
        invariant
            0 <= i <= expected.len(),
            all_match(expected@.take(i as int), ledger.account_map()),
        decreases expected.len() - i,
    {
        let r = expected[i];
        let acc = match ledger.get_account(r.client) {
            Ok(Some(acc)) => acc,
            Ok(None) => {
                proof {
                    assert(!ledger.account_map().contains_key(expected@[i as int].client));
                }
                return Err(ExecError::StringError("account does not exist".to_string()));
            },
            Err(e) => return Err(ExecError::IOError(e)),
        };
        if !(acc.available == r.available && acc.total == r.total && acc.held == r.held && acc.locked == r.locked) {
            proof {
                assert(!state_matches(expected@[i as int], ledger.account_map()[expected@[i as int].client]));
            }
            return Err(ExecError::StringError("account state does not match to csv record".to_string()));
        }
        proof {
            assert forall|j: int| 0 <= j < i + 1 implies {
                &&& #[trigger] ledger.account_map().contains_key(expected@.take(i as int + 1)[j].client)
                &&& state_matches(expected@.take(i as int + 1)[j], ledger.account_map()[expected@.take(i as int + 1)[j].client])
            } by {
                if j < i {
                    assert(expected@.take(i as int + 1)[j] == expected@.take(i as int)[j]);
                } else {
                    assert(expected@.take(i as int + 1)[j] == r);
                    assert(ledger.account_map().contains_key(r.client) && ledger.account_map()[r.client] == acc);
                }
            }
            assert(all_match(expected@.take(i as int + 1), ledger.account_map()));
        }
        i = i + 1;
    }
    proof {
        assert(expected@.take(expected.len() as int) =~= expected@);
    }
    Ok(())
}

/// `v` reports each account of `accs` exactly once.
pub open spec fn reports_exactly(v: Seq<AccountState>, accs: Accounts) -> bool {
    &&& forall|i: int| 0 <= i < v.len() ==> #[trigger] accs.contains_key(v[i].client) && state_matches(v[i], accs[v[i].client])
    &&& forall|c: Client| accs.contains_key(c) ==> exists|i: int| 0 <= i < v.len() && #[trigger] v[i].client == c
    &&& forall|i: int, j: int| 0 <= i < j < v.len() ==> v[i].client != v[j].client
}

/// A snapshot of every account of the ledger, in no particular order.
pub fn account_states<L: Ledger>(ledger: &L) -> (res: Result<Vec<AccountState>, ExecError>)
    ensures
        res is Ok ==> reports_exactly(res->Ok_0@, ledger.account_map()),
        ledger.infallible() ==> res is Ok,
{
    let pairs = match ledger.accounts() {
        Ok(p) => p,
        Err(e) => return Err(ExecError::IOError(e)),
    };
    let mut out: Vec<AccountState> = Vec::new();
    let mut i: usize = 0;
    while i < pairs.len()
        invariant
            0 <= i <= pairs.len(),
            out.len() == i,
            forall|j: int| 0 <= j < i ==> {
                let (c, a) = #[trigger] pairs@[j];
                out@[j].client == c && state_matches(out@[j], a)
            },
        decreases pairs.len() - i,
    {
        let (client, acc) = pairs[i];
        out.push(AccountState { client, available: acc.available, held: acc.held, total: acc.total, locked: acc.locked });
        i = i + 1;
    }
    proof {
        let m = ledger.account_map();
        assert forall|c: Client| m.contains_key(c) implies exists|j: int| 0 <= j < out.len() && #[trigger] out@[j].client == c by {
            let j = choose|j: int| 0 <= j < pairs.len() && #[trigger] pairs@[j].0 == c;
            assert(out@[j].client == c);
        }
        assert forall|j: int| 0 <= j < out.len() implies #[trigger] m.contains_key(out@[j].client) && state_matches(out@[j], m[out@[j].client]) by {
            assert(m.contains_key(pairs@[j].0));
        }
        assert forall|j: int, k: int| 0 <= j < k < out.len() implies out@[j].client != out@[k].client by {
            assert(pairs@[j].0 != pairs@[k].0);
        }
    }
    Ok(out)
}

} // verus!
