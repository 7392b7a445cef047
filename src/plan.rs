//! The decisions of the state machine, as pure functions of the two records
//! an event reads: the client's account and the transaction under its id.
//! A plan is either the account and transaction to write, or the error that
//! stops the event.
use crate::common::{
    Account, Accounts, Amount, Client, Policy, Step, Transaction, Transactions, TxError, TxId,
    TxState, Verdict, add_amounts, chargeback_spec, check_spec, deposit_spec, dispute_spec,
    err_verdict, lookup, resolve_spec, sub_amounts, withdrawal_spec,
};
use crate::exec::{TxRequest, step_spec};
use vstd::prelude::*;

verus! {

/// `res` is the plan for an event that takes a ledger holding `accs` and
/// `txs` by `step`: on `Ok`, write the account of `client` and the
/// transaction `tx_id`; on `Err`, write nothing.
pub open spec fn plan_matches(
    res: Result<(Account, Transaction), TxError>,
    step: Step,
    accs: Accounts,
    txs: Transactions,
    client: Client,
    tx_id: TxId,
) -> bool {
    match res {
        Ok((a, t)) => step == (accs.insert(client, a), txs.insert(tx_id, t), Verdict::Applied),
        Err(e) => {
            &&& !(e is IOError)
            &&& step == (accs, txs, err_verdict(e))
        },
    }
}

/// The precondition shared by dispute, resolve and chargeback, on the
/// records they read: on success, the transaction and the account.
pub fn check_tx_acc(
    acc: Option<Account>,
    tx: Option<Transaction>,
    policy: Policy,
    client: Client,
    tx_state: TxState,
) -> (r: Result<(Transaction, Account), TxError>)
    ensures
        r is Err ==> !(r->Err_0 is IOError),
        forall|accs: Accounts, txs: Transactions, tx_id: TxId|
            lookup(accs, client) == acc && lookup(txs, tx_id) == tx ==> match #[trigger] check_spec(accs, txs, policy, client, tx_id, tx_state) {
                Some(v) => r is Err && !(r->Err_0 is IOError) && err_verdict(r->Err_0) == v,
                None => r == Ok::<(Transaction, Account), TxError>((txs[tx_id], accs[client])),
            },
{
    let tx = match tx {
        Some(tx) => tx,
        None => return Err(TxError::Rejected("deposit transaction does not exist".to_string())),
    };
    let acc = match acc {
        Some(acc) => acc,
        None => return Err(TxError::Rejected("disputed account does not exist".to_string())),
    };
    if tx.client != client {
        return Err(TxError::Rejected("malicious transaction, wrong client".to_string()));
    }
    if tx.state != tx_state {
        return match tx_state {
            TxState::Committed if tx.state == TxState::Disputed => Err(TxError::Ignored("already disputed".to_string())),
            TxState::Disputed => Err(TxError::Rejected("transaction is not disputed".to_string())),
            _ => Err(TxError::Rejected("can not be disputed".to_string())),
        };
    }
    if acc.locked {
        return Err(TxError::Rejected("account is locked".to_string()));
    }
    if !policy.allow_negative_balance_for_dispute && tx_state == TxState::Committed && tx.amount.0 > acc.available.0 {
        return Err(TxError::Rejected("insufficient funds for dispute".to_string()));
    }
    Ok((tx, acc))
}

/// Plans a deposit: record it, and credit it to the account, opening one
/// where there is none.
pub fn plan_deposit(acc: Option<Account>, tx: Option<Transaction>, client: Client, tx_id: TxId, amount: Amount)
    -> (res: Result<(Account, Transaction), TxError>)
    ensures
        res is Err ==> !(res->Err_0 is IOError),
        forall|accs: Accounts, txs: Transactions|
            lookup(accs, client) == acc && lookup(txs, tx_id) == tx ==> plan_matches(
                res, #[trigger] deposit_spec(accs, txs, client, tx_id, amount), accs, txs, client, tx_id),
{
    if tx.is_some() {
        return Err(TxError::Ignored("duplicated transaction".to_string()));
    }
    let acc = match acc {
        Some(acc) => {
            if acc.locked {
                return Err(TxError::Rejected("account is locked".to_string()));
            }
            acc
        },
        None => Account { available: Amount(0), total: Amount(0), held: Amount(0), locked: false },
    };
    match (add_amounts(acc.available, amount), add_amounts(acc.total, amount)) {
        (Some(available), Some(total)) => Ok((
            Account { available, total, held: acc.held, locked: acc.locked },
            Transaction { client, amount, state: TxState::Committed },
        )),
        _ => Err(TxError::StringError("amount overflow".to_string())),
    }
}

/// Plans a withdrawal from an existing, unlocked account with enough
/// available funds. Its record, never disputable, only keeps the id from reuse.
pub fn plan_withdrawal(acc: Option<Account>, tx: Option<Transaction>, client: Client, tx_id: TxId, amount: Amount)
    -> (res: Result<(Account, Transaction), TxError>)
    ensures
        res is Err ==> !(res->Err_0 is IOError),
        forall|accs: Accounts, txs: Transactions|
            lookup(accs, client) == acc && lookup(txs, tx_id) == tx ==> plan_matches(
                res, #[trigger] withdrawal_spec(accs, txs, client, tx_id, amount), accs, txs, client, tx_id),
{
    let acc = match acc {
        Some(acc) => acc,
        None => return Err(TxError::Rejected("account does not exist".to_string())),
    };
    if acc.locked {
        return Err(TxError::Rejected("account is locked".to_string()));
    }
    if tx.is_some() {
        return Err(TxError::Ignored("duplicated transaction".to_string()));
    }
    if acc.available.0 < amount.0 {
        return Err(TxError::Rejected("insufficient funds".to_string()));
    }
    match (sub_amounts(acc.available, amount), sub_amounts(acc.total, amount)) {
        (Some(available), Some(total)) => Ok((
            Account { available, total, held: acc.held, locked: acc.locked },
            Transaction { client, amount, state: TxState::Finalized },
        )),
        _ => Err(TxError::StringError("amount overflow".to_string())),
    }
}

/// Plans a dispute: the deposit's amount moves from `available` to `held`.
pub fn plan_dispute(acc: Option<Account>, tx: Option<Transaction>, policy: Policy, client: Client, tx_id: TxId)
    -> (res: Result<(Account, Transaction), TxError>)
    ensures
        res is Err ==> !(res->Err_0 is IOError),
        forall|accs: Accounts, txs: Transactions|
            lookup(accs, client) == acc && lookup(txs, tx_id) == tx ==> plan_matches(
                res, #[trigger] dispute_spec(accs, txs, policy, client, tx_id), accs, txs, client, tx_id),
{
    let (tx, acc) = match check_tx_acc(acc, tx, policy, client, TxState::Committed) {
        Ok(found) => found,
        Err(e) => return Err(e),
    };
    match (sub_amounts(acc.available, tx.amount), add_amounts(acc.held, tx.amount)) {
        (Some(available), Some(held)) => Ok((
            Account { available, total: acc.total, held, locked: acc.locked },
            Transaction { client: tx.client, amount: tx.amount, state: TxState::Disputed },
        )),
        _ => Err(TxError::StringError("amount overflow".to_string())),
    }
}

/// Plans a resolve: the held amount becomes available again, and the
/// deposit can no longer be disputed. (Returning it to `Committed` instead
/// would make it disputable again; that is deliberately not done.)
pub fn plan_resolve(acc: Option<Account>, tx: Option<Transaction>, policy: Policy, client: Client, tx_id: TxId)
    -> (res: Result<(Account, Transaction), TxError>)
    ensures
        res is Err ==> !(res->Err_0 is IOError),
        forall|accs: Accounts, txs: Transactions|
            lookup(accs, client) == acc && lookup(txs, tx_id) == tx ==> plan_matches(
                res, #[trigger] resolve_spec(accs, txs, policy, client, tx_id), accs, txs, client, tx_id),
{
    let (tx, acc) = match check_tx_acc(acc, tx, policy, client, TxState::Disputed) {
        Ok(found) => found,
        Err(e) => return Err(e),
    };
    match (add_amounts(acc.available, tx.amount), sub_amounts(acc.held, tx.amount)) {
        (Some(available), Some(held)) => Ok((
            Account { available, total: acc.total, held, locked: acc.locked },
            Transaction { client: tx.client, amount: tx.amount, state: TxState::Finalized },
        )),
        _ => Err(TxError::StringError("amount overflow".to_string())),
    }
}

/// Plans a chargeback: the held amount leaves the account, which is locked
/// for good.
pub fn plan_chargeback(acc: Option<Account>, tx: Option<Transaction>, policy: Policy, client: Client, tx_id: TxId)
    -> (res: Result<(Account, Transaction), TxError>)
    ensures
        res is Err ==> !(res->Err_0 is IOError),
        forall|accs: Accounts, txs: Transactions|
            lookup(accs, client) == acc && lookup(txs, tx_id) == tx ==> plan_matches(
                res, #[trigger] chargeback_spec(accs, txs, policy, client, tx_id), accs, txs, client, tx_id),
{
    let (tx, acc) = match check_tx_acc(acc, tx, policy, client, TxState::Disputed) {
        Ok(found) => found,
        Err(e) => return Err(e),
    };
    match (sub_amounts(acc.total, tx.amount), sub_amounts(acc.held, tx.amount)) {
        (Some(total), Some(held)) => Ok((
            Account { available: acc.available, total, held, locked: true },
            Transaction { client: tx.client, amount: tx.amount, state: TxState::Cancelled },
        )),
        _ => Err(TxError::StringError("amount overflow".to_string())),
    }
}

/// Plans any event, given the account of its client and the transaction
/// under its id: for stores that run the reads and writes themselves.
pub fn plan_request(acc: Option<Account>, tx: Option<Transaction>, policy: Policy, r: &TxRequest)
    -> (res: Result<(Account, Transaction), TxError>)
    ensures
        res is Err ==> !(res->Err_0 is IOError),
        forall|accs: Accounts, txs: Transactions|
            lookup(accs, r.client) == acc && lookup(txs, r.tx_id) == tx ==> plan_matches(
                res, #[trigger] step_spec(accs, txs, policy, *r), accs, txs, r.client, r.tx_id),
{
    match (r.tx_type, r.amount) {
        (crate::common::TxType::Deposit, Some(amount)) => plan_deposit(acc, tx, r.client, r.tx_id, amount),
        (crate::common::TxType::Withdrawal, Some(amount)) => plan_withdrawal(acc, tx, r.client, r.tx_id, amount),
        (crate::common::TxType::Deposit, None) => Err(TxError::StringError("deposit has no amount".to_string())),
        (crate::common::TxType::Withdrawal, None) => Err(TxError::StringError("withdrawal has no amount".to_string())),
        (crate::common::TxType::Dispute, _) => plan_dispute(acc, tx, policy, r.client, r.tx_id),
        (crate::common::TxType::Resolve, _) => plan_resolve(acc, tx, policy, r.client, r.tx_id),
        (crate::common::TxType::Chargeback, _) => plan_chargeback(acc, tx, policy, r.client, r.tx_id),
    }
}


/// What a worker lane does with an event, given the records it reads: the
/// writes to make (`Some`), nothing for a rejected or ignored event (`None`),
/// or the fatal error that ends the lane.
pub fn plan_for_lane(acc: Option<Account>, tx: Option<Transaction>, policy: Policy, r: &TxRequest)
    -> (res: Result<Option<(Account, Transaction)>, TxError>)
    ensures
        res is Err ==> !(res->Err_0 is IOError),
        forall|accs: Accounts, txs: Transactions|
            lookup(accs, r.client) == acc && lookup(txs, r.tx_id) == tx ==> {
                let s = #[trigger] step_spec(accs, txs, policy, *r);
                match res {
                    Ok(Some((a, t))) => s == (accs.insert(r.client, a), txs.insert(r.tx_id, t), Verdict::Applied),
                    Ok(None) => s.0 == accs && s.1 == txs && (s.2 == Verdict::Rejected || s.2 == Verdict::Ignored),
                    Err(_) => s.0 == accs && s.1 == txs && s.2 == Verdict::Fault,
                }
            },
{
    match plan_request(acc, tx, policy, r) {
        Ok(writes) => Ok(Some(writes)),
        Err(TxError::Rejected(_)) | Err(TxError::Ignored(_)) => Ok(None),
        Err(e) => Err(e),
    }
}

} // verus!
