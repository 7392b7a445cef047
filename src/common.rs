use vstd::prelude::*;

verus! {

/// A client identifier.
#[derive(Clone, Copy, Debug, PartialEq, Eq, Hash, Structural)]
pub struct Client(pub u16);

impl From<u32> for Client {
    /// Keeps the low sixteen bits of `v`.
    fn from(v: u32) -> (r: Client)
        ensures
            r.0 == v as u16,
    {
        Client(v as u16)
    }
}

impl vstd::std_specs::convert::FromSpecImpl<u32> for Client {
    open spec fn obeys_from_spec() -> bool {
        true
    }

    open spec fn from_spec(v: u32) -> Client {
        Client(v as u16)
    }
}

/// A transaction identifier.
#[derive(Clone, Copy, Debug, PartialEq, Eq, Hash, Structural)]
pub struct TxId(pub u32);

impl From<u32> for TxId {
    fn from(v: u32) -> (r: TxId)
        ensures
            r.0 == v,
    {
        TxId(v)
    }
}

impl vstd::std_specs::convert::FromSpecImpl<u32> for TxId {
    open spec fn obeys_from_spec() -> bool {
        true
    }

    open spec fn from_spec(v: u32) -> TxId {
        TxId(v)
    }
}

/// A fixed-point money amount, counted in ten-thousandths of a unit
/// (`Amount(12345)` is `1.2345`).
#[derive(Clone, Copy, Debug, PartialEq, Eq, Hash, Structural)]
pub struct Amount(pub i64);

/// How many `Amount` steps make one whole unit.
pub const UNIT: i64 = 10000;


/// The balance of one client.
#[derive(Clone, Copy, Debug, PartialEq, Eq, Structural)]
pub struct Account {
    pub available: Amount,
    pub total: Amount,
    pub held: Amount,
    pub locked: bool,
}

/// Where a recorded transaction stands in its lifecycle.
#[derive(Clone, Copy, Debug, PartialEq, Eq, Structural)]
pub enum TxState {
    /// A deposit that can still be disputed.
    Committed,
    /// A deposit whose amount is held pending resolution.
    Disputed,
    /// No longer disputable: every withdrawal, and every resolved deposit.
    Finalized,
    /// Charged back; its amount no longer counts in the client's account.
    Cancelled,
}

/// A deposit or withdrawal, as recorded in the ledger.
#[derive(Clone, Copy, Debug, PartialEq, Eq, Structural)]
pub struct Transaction {
    pub client: Client,
    pub amount: Amount,
    pub state: TxState,
}

/// Behavioural switches carried by a ledger.
#[derive(Clone, Copy, Debug, PartialEq, Eq, Structural)]
pub struct Policy {
    /// Lets a dispute push `available` below zero.
    pub allow_negative_balance_for_dispute: bool,
}

impl Default for Policy {
    fn default() -> (p: Policy)
        ensures
            !p.allow_negative_balance_for_dispute,
    {
        Policy { allow_negative_balance_for_dispute: false }
    }
}

/// The kind of an incoming event.
#[derive(Clone, Copy, Debug, PartialEq, Eq, Structural)]
pub enum TxType {
    Deposit,
    Withdrawal,
    Dispute,
    Resolve,
    Chargeback,
}

/// Relies on `std::io::Error` only as an opaque value: the error a store
/// fails with, carried through to the caller unread.
#[verifier::external_type_specification]
#[verifier::external_body]
pub struct ExIoError(std::io::Error);

/// Why an operation did not apply.
#[derive(Debug)]
pub enum TxError {
    /// An unexpected condition, such as an amount that overflows; fatal.
    StringError(String),
    /// The operation is well formed but the current state forbids it.
    Rejected(String),
    /// The operation is a no-op given the current state.
    Ignored(String),
    /// The store failed; fatal.
    IOError(std::io::Error),
    /// No more events.
    Empty,
}

/// The outcome of one operation, as the state machine sees it.
#[derive(Clone, Copy, Debug, PartialEq, Eq, Structural)]
pub enum Verdict {
    Applied,
    Rejected,
    Ignored,
    Fault,
}

pub open spec fn err_verdict(e: TxError) -> Verdict {
    match e {
        TxError::Rejected(_) => Verdict::Rejected,
        TxError::Ignored(_) => Verdict::Ignored,
        _ => Verdict::Fault,
    }
}

pub open spec fn verdict_of(r: Result<(), TxError>) -> Verdict {
    match r {
        Ok(_) => Verdict::Applied,
        Err(e) => err_verdict(e),
    }
}

/// The store itself failed.
pub open spec fn is_io_error<T>(r: Result<T, TxError>) -> bool {
    r is Err && r->Err_0 is IOError
}

pub open spec fn fits(x: int) -> bool {
    i64::MIN <= x <= i64::MAX
}

pub open spec fn lookup<K, V>(m: Map<K, V>, k: K) -> Option<V> {
    if m.contains_key(k) {
        Some(m[k])
    } else {
        None
    }
}

/// `v` lists each entry of `m` exactly once.
pub open spec fn lists_exactly<K, V>(v: Seq<(K, V)>, m: Map<K, V>) -> bool {
    &&& forall|i: int| 0 <= i < v.len() ==> #[trigger] m.contains_key(v[i].0) && m[v[i].0] == v[i].1
    &&& forall|k: K| m.contains_key(k) ==> exists|i: int| 0 <= i < v.len() && #[trigger] v[i].0 == k
    &&& forall|i: int, j: int| 0 <= i < j < v.len() ==> v[i].0 != v[j].0
}

/// `a + b`, or `None` where it leaves the range of `Amount`.
pub fn add_amounts(a: Amount, b: Amount) -> (r: Option<Amount>)
    ensures
        r == (if fits(a.0 + b.0) {
            Some(Amount((a.0 + b.0) as i64))
        } else {
            None
        }),
{
    let x: i128 = a.0 as i128 + b.0 as i128;
    if x < i64::MIN as i128 || x > i64::MAX as i128 {
        None
    } else {
        Some(Amount(x as i64))
    }
}

/// `a - b`, or `None` where it leaves the range of `Amount`.
pub fn sub_amounts(a: Amount, b: Amount) -> (r: Option<Amount>)
    ensures
        r == (if fits(a.0 - b.0) {
            Some(Amount((a.0 - b.0) as i64))
        } else {
            None
        }),
{
    let x: i128 = a.0 as i128 - b.0 as i128;
    if x < i64::MIN as i128 || x > i64::MAX as i128 {
        None
    } else {
        Some(Amount(x as i64))
    }
}


/// The accounts of a ledger, by client.
pub type Accounts = Map<Client, Account>;

/// The recorded transactions of a ledger, by id.
pub type Transactions = Map<TxId, Transaction>;

/// A ledger's state after one operation, with the operation's verdict.
pub type Step = (Accounts, Transactions, Verdict);

pub open spec fn zero_account() -> Account {
    Account { available: Amount(0), total: Amount(0), held: Amount(0), locked: false }
}

pub open spec fn deposit_spec(accs: Accounts, txs: Transactions, client: Client, tx_id: TxId, amount: Amount) -> Step {
    if txs.contains_key(tx_id) {
        (accs, txs, Verdict::Ignored)
    } else if accs.contains_key(client) && accs[client].locked {
        (accs, txs, Verdict::Rejected)
    } else {
        let acc = if accs.contains_key(client) { accs[client] } else { zero_account() };
        let available = acc.available.0 + amount.0;
        let total = acc.total.0 + amount.0;
        if !fits(available) || !fits(total) {
            (accs, txs, Verdict::Fault)
        } else {
            (
                accs.insert(client, Account {
                    available: Amount(available as i64),
                    total: Amount(total as i64),
                    held: acc.held,
                    locked: acc.locked,
                }),
                txs.insert(tx_id, Transaction { client, amount, state: TxState::Committed }),
                Verdict::Applied,
            )
        }
    }
}

pub open spec fn withdrawal_spec(accs: Accounts, txs: Transactions, client: Client, tx_id: TxId, amount: Amount) -> Step {
    if !accs.contains_key(client) {
        (accs, txs, Verdict::Rejected)
    } else if accs[client].locked {
        (accs, txs, Verdict::Rejected)
    } else if txs.contains_key(tx_id) {
        (accs, txs, Verdict::Ignored)
    } else if accs[client].available.0 < amount.0 {
        (accs, txs, Verdict::Rejected)
    } else {
        let acc = accs[client];
        let available = acc.available.0 - amount.0;
        let total = acc.total.0 - amount.0;
        if !fits(available) || !fits(total) {
            (accs, txs, Verdict::Fault)
        } else {
            (
                accs.insert(client, Account {
                    available: Amount(available as i64),
                    total: Amount(total as i64),
                    held: acc.held,
                    locked: acc.locked,
                }),
                txs.insert(tx_id, Transaction { client, amount, state: TxState::Finalized }),
                Verdict::Applied,
            )
        }
    }
}

/// The precondition shared by dispute, resolve and chargeback: `None` where
/// the operation may go ahead, else the verdict that stops it.
pub open spec fn check_spec(
    accs: Accounts,
    txs: Transactions,
    policy: Policy,
    client: Client,
    tx_id: TxId,
    expected: TxState,
) -> Option<Verdict> {
    if !txs.contains_key(tx_id) {
        Some(Verdict::Rejected)
    } else if !accs.contains_key(client) {
        Some(Verdict::Rejected)
    } else if txs[tx_id].client != client {
        Some(Verdict::Rejected)
    } else if txs[tx_id].state != expected {
        if expected == TxState::Committed && txs[tx_id].state == TxState::Disputed {
            Some(Verdict::Ignored)
        } else {
            Some(Verdict::Rejected)
        }
    } else if accs[client].locked {
        Some(Verdict::Rejected)
    } else if !policy.allow_negative_balance_for_dispute && expected == TxState::Committed
        && txs[tx_id].amount.0 > accs[client].available.0 {
        Some(Verdict::Rejected)
    } else {
        None
    }
}

pub open spec fn dispute_spec(accs: Accounts, txs: Transactions, policy: Policy, client: Client, tx_id: TxId) -> Step {
    match check_spec(accs, txs, policy, client, tx_id, TxState::Committed) {
        Some(v) => (accs, txs, v),
        None => {
            let acc = accs[client];
            let tx = txs[tx_id];
            let available = acc.available.0 - tx.amount.0;
            let held = acc.held.0 + tx.amount.0;
            if !fits(available) || !fits(held) {
                (accs, txs, Verdict::Fault)
            } else {
                (
                    accs.insert(client, Account {
                        available: Amount(available as i64),
                        total: acc.total,
                        held: Amount(held as i64),
                        locked: acc.locked,
                    }),
                    txs.insert(tx_id, Transaction { client: tx.client, amount: tx.amount, state: TxState::Disputed }),
                    Verdict::Applied,
                )
            }
        },
    }
}

pub open spec fn resolve_spec(accs: Accounts, txs: Transactions, policy: Policy, client: Client, tx_id: TxId) -> Step {
    match check_spec(accs, txs, policy, client, tx_id, TxState::Disputed) {
        Some(v) => (accs, txs, v),
        None => {
            let acc = accs[client];
            let tx = txs[tx_id];
            let available = acc.available.0 + tx.amount.0;
            let held = acc.held.0 - tx.amount.0;
            if !fits(available) || !fits(held) {
                (accs, txs, Verdict::Fault)
            } else {
                (
                    accs.insert(client, Account {
                        available: Amount(available as i64),
                        total: acc.total,
                        held: Amount(held as i64),
                        locked: acc.locked,
                    }),
                    txs.insert(tx_id, Transaction { client: tx.client, amount: tx.amount, state: TxState::Finalized }),
                    Verdict::Applied,
                )
            }
        },
    }
}

pub open spec fn chargeback_spec(accs: Accounts, txs: Transactions, policy: Policy, client: Client, tx_id: TxId) -> Step {
    match check_spec(accs, txs, policy, client, tx_id, TxState::Disputed) {
        Some(v) => (accs, txs, v),
        None => {
            let acc = accs[client];
            let tx = txs[tx_id];
            let total = acc.total.0 - tx.amount.0;
            let held = acc.held.0 - tx.amount.0;
            if !fits(total) || !fits(held) {
                (accs, txs, Verdict::Fault)
            } else {
                (
                    accs.insert(client, Account {
                        available: acc.available,
                        total: Amount(total as i64),
                        held: Amount(held as i64),
                        locked: true,
                    }),
                    txs.insert(tx_id, Transaction { client: tx.client, amount: tx.amount, state: TxState::Cancelled }),
                    Verdict::Applied,
                )
            }
        },
    }
}

/// What an operation of the state machine is held to: unless the store
/// failed, the maps it leaves (`accs`, `txs`) and its verdict are those of
/// `step`.
pub open spec fn follows(r: Result<(), TxError>, step: Step, accs: Accounts, txs: Transactions) -> bool {
    !is_io_error(r) ==> {
        &&& accs == step.0
        &&& txs == step.1
        &&& verdict_of(r) == step.2
    }
}

/// A store of accounts and transactions, and the transaction state machine
/// that runs over it.
pub trait Ledger {
    /// The accounts the store holds.
    spec fn account_map(&self) -> Accounts;

    /// The transactions the store holds.
    spec fn tx_map(&self) -> Transactions;

    /// The policy the store carries for the operations run over it.
    spec fn policy_spec(&self) -> Policy;

    /// The store never reports a failure.
    spec fn infallible(&self) -> bool;

    fn policy(&self) -> (p: Policy)
        ensures
            p == self.policy_spec(),
    ;

    fn get_account(&self, client: Client) -> (r: Result<Option<Account>, std::io::Error>)
        ensures
            r is Ok ==> r->Ok_0 == lookup(self.account_map(), client),
            self.infallible() ==> r is Ok,
    ;

    fn put_account(&mut self, client: Client, account: Account) -> (r: Result<(), std::io::Error>)
        ensures
            final(self).policy_spec() == old(self).policy_spec(),
            final(self).tx_map() == old(self).tx_map(),
            final(self).infallible() == old(self).infallible(),
            r is Ok ==> final(self).account_map() == old(self).account_map().insert(client, account),
            old(self).infallible() ==> r is Ok,
    ;

    /// Every account, each once, in no particular order.
    fn accounts(&self) -> (r: Result<Vec<(Client, Account)>, std::io::Error>)
        ensures
            r is Ok ==> lists_exactly(r->Ok_0@, self.account_map()),
            self.infallible() ==> r is Ok,
    ;

    fn get_transaction(&self, tx_id: TxId) -> (r: Result<Option<Transaction>, std::io::Error>)
        ensures
            r is Ok ==> r->Ok_0 == lookup(self.tx_map(), tx_id),
            self.infallible() ==> r is Ok,
    ;

    fn put_transaction(&mut self, tx_id: TxId, tx: Transaction) -> (r: Result<(), std::io::Error>)
        ensures
            final(self).policy_spec() == old(self).policy_spec(),
            final(self).account_map() == old(self).account_map(),
            final(self).infallible() == old(self).infallible(),
            r is Ok ==> final(self).tx_map() == old(self).tx_map().insert(tx_id, tx),
            old(self).infallible() ==> r is Ok,
    ;

    /// Every recorded transaction, each once, in no particular order.
    fn transactions(&self) -> (r: Result<Vec<(TxId, Transaction)>, std::io::Error>)
        ensures
            r is Ok ==> lists_exactly(r->Ok_0@, self.tx_map()),
            self.infallible() ==> r is Ok,
    ;

    /// The two records an event reads: the client's account and the
    /// transaction under its id.
    fn read(&self, client: Client, tx_id: TxId) -> (r: Result<(Option<Account>, Option<Transaction>), TxError>)
        ensures
            self.infallible() ==> r is Ok,
            r is Err ==> r->Err_0 is IOError,
            r is Ok ==> r->Ok_0 == (lookup(self.account_map(), client), lookup(self.tx_map(), tx_id)),
    {
        let acc = match self.get_account(client) {
            Ok(a) => a,
            Err(e) => return Err(TxError::IOError(e)),
        };
        let tx = match self.get_transaction(tx_id) {
            Ok(t) => t,
            Err(e) => return Err(TxError::IOError(e)),
        };
        Ok((acc, tx))
    }

    /// Writes the outcome of an event: the account first, then the
    /// transaction. A failure of the second write leaves the account written
    /// and the transaction not: the ledger then needs repair by replaying
    /// its transactions.
    fn write(&mut self, client: Client, account: Account, tx_id: TxId, tx: Transaction) -> (r: Result<(), TxError>)
        ensures
            final(self).policy_spec() == old(self).policy_spec(),
            final(self).infallible() == old(self).infallible(),
            old(self).infallible() ==> r is Ok,
            r is Err ==> r->Err_0 is IOError,
            r is Ok ==> final(self).account_map() == old(self).account_map().insert(client, account),
            r is Ok ==> final(self).tx_map() == old(self).tx_map().insert(tx_id, tx),
    {
        if let Err(e) = self.put_account(client, account) {
            return Err(TxError::IOError(e));
        }
        if let Err(e) = self.put_transaction(tx_id, tx) {
            return Err(TxError::IOError(e));
        }
        Ok(())
    }

    /// Records a deposit and credits it to the client's account, opening the
    /// account if there is none.
    fn deposit(&mut self, client: Client, tx_id: TxId, amount: Amount) -> (r: Result<(), TxError>)
        ensures
            final(self).policy_spec() == old(self).policy_spec(),
            final(self).infallible() == old(self).infallible(),
            old(self).infallible() ==> !is_io_error(r),
            follows(r, deposit_spec(old(self).account_map(), old(self).tx_map(), client, tx_id, amount), final(self).account_map(), final(self).tx_map()),
    {
        let (acc, tx) = match self.read(client, tx_id) {
            Ok(records) => records,
            Err(e) => return Err(e),
        };
        let (account, record) = match crate::plan::plan_deposit(acc, tx, client, tx_id, amount) {
            Ok(plan) => plan,
            Err(e) => return Err(e),
        };
        self.write(client, account, tx_id, record)
    }

    /// Debits a withdrawal from an existing, unlocked account with enough
    /// available funds, and records it so that its id cannot be reused.
    fn withdrawal(&mut self, client: Client, tx_id: TxId, amount: Amount) -> (r: Result<(), TxError>)
        ensures
            final(self).policy_spec() == old(self).policy_spec(),
            final(self).infallible() == old(self).infallible(),
            old(self).infallible() ==> !is_io_error(r),
            follows(r, withdrawal_spec(old(self).account_map(), old(self).tx_map(), client, tx_id, amount), final(self).account_map(), final(self).tx_map()),
    {
        let (acc, tx) = match self.read(client, tx_id) {
            Ok(records) => records,
            Err(e) => return Err(e),
        };
        let (account, record) = match crate::plan::plan_withdrawal(acc, tx, client, tx_id, amount) {
            Ok(plan) => plan,
            Err(e) => return Err(e),
        };
        self.write(client, account, tx_id, record)
    }

    /// Moves the amount of a committed deposit from `available` to `held`.
    fn dispute(&mut self, client: Client, tx_id: TxId) -> (r: Result<(), TxError>)
        ensures
            final(self).policy_spec() == old(self).policy_spec(),
            final(self).infallible() == old(self).infallible(),
            old(self).infallible() ==> !is_io_error(r),
            follows(r, dispute_spec(old(self).account_map(), old(self).tx_map(), old(self).policy_spec(), client, tx_id), final(self).account_map(), final(self).tx_map()),
    {
        let (acc, tx) = match self.read(client, tx_id) {
            Ok(records) => records,
            Err(e) => return Err(e),
        };
        let (account, record) = match crate::plan::plan_dispute(acc, tx, self.policy(), client, tx_id) {
            Ok(plan) => plan,
            Err(e) => return Err(e),
        };
        self.write(client, account, tx_id, record)
    }

    /// Settles a dispute in the client's favour: the held amount becomes
    /// available again, and the deposit can no longer be disputed.
    fn resolve(&mut self, client: Client, tx_id: TxId) -> (r: Result<(), TxError>)
        ensures
            final(self).policy_spec() == old(self).policy_spec(),
            final(self).infallible() == old(self).infallible(),
            old(self).infallible() ==> !is_io_error(r),
            follows(r, resolve_spec(old(self).account_map(), old(self).tx_map(), old(self).policy_spec(), client, tx_id), final(self).account_map(), final(self).tx_map()),
    {
        let (acc, tx) = match self.read(client, tx_id) {
            Ok(records) => records,
            Err(e) => return Err(e),
        };
        let (account, record) = match crate::plan::plan_resolve(acc, tx, self.policy(), client, tx_id) {
            Ok(plan) => plan,
            Err(e) => return Err(e),
        };
        self.write(client, account, tx_id, record)
    }

    /// Settles a dispute against the client: the held amount leaves the
    /// account, which is locked for good.
    fn chargeback(&mut self, client: Client, tx_id: TxId) -> (r: Result<(), TxError>)
        ensures
            final(self).policy_spec() == old(self).policy_spec(),
            final(self).infallible() == old(self).infallible(),
            old(self).infallible() ==> !is_io_error(r),
            follows(r, chargeback_spec(old(self).account_map(), old(self).tx_map(), old(self).policy_spec(), client, tx_id), final(self).account_map(), final(self).tx_map()),
    {
        let (acc, tx) = match self.read(client, tx_id) {
            Ok(records) => records,
            Err(e) => return Err(e),
        };
        let (account, record) = match crate::plan::plan_chargeback(acc, tx, self.policy(), client, tx_id) {
            Ok(plan) => plan,
            Err(e) => return Err(e),
        };
        self.write(client, account, tx_id, record)
    }
}

} // verus!
