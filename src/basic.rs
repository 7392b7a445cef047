use crate::common::{Account, Accounts, Client, Ledger, Policy, Transaction, Transactions, TxId};
use std::collections::HashMap;
use vstd::prelude::*;
use vstd::std_specs::hash::spec_hash_map_iter;
use vstd::std_specs::iter::IteratorSpec;

verus! {

broadcast use vstd::std_specs::hash::group_hash_axioms;

/// A ledger held in two hash maps, keyed by the raw client and transaction ids.
#[derive(Clone, Debug)]
pub struct HashLedger {
    transactions: HashMap<u32, Transaction>,
    accounts: HashMap<u16, Account>,
    policy: Policy,
}

impl HashLedger {
    /// An empty ledger under the default policy.
    pub fn new() -> (l: HashLedger)
        ensures
            l.account_map() == Map::<Client, Account>::empty(),
            l.tx_map() == Map::<TxId, Transaction>::empty(),
            !l.policy_spec().allow_negative_balance_for_dispute,
            l.infallible(),
    {
        Self::with_policy(Policy { allow_negative_balance_for_dispute: false })
    }

    /// An empty ledger under `policy`.
    pub fn with_policy(policy: Policy) -> (l: HashLedger)
        ensures
            l.account_map() == Map::<Client, Account>::empty(),
            l.tx_map() == Map::<TxId, Transaction>::empty(),
            l.policy_spec() == policy,
            l.infallible(),
    {
        let l = HashLedger { transactions: HashMap::new(), accounts: HashMap::new(), policy };
        assert(l.account_map() =~= Map::<Client, Account>::empty());
        assert(l.tx_map() =~= Map::<TxId, Transaction>::empty());
        l
    }
}

impl Default for HashLedger {
    fn default() -> (l: HashLedger)
        ensures
            l.account_map() == Map::<Client, Account>::empty(),
            l.tx_map() == Map::<TxId, Transaction>::empty(),
            !l.policy_spec().allow_negative_balance_for_dispute,
            l.infallible(),
    {
        Self::new()
    }
}

impl Ledger for HashLedger {
    closed spec fn account_map(&self) -> Accounts {
        Map::new(|c: Client| self.accounts@.contains_key(c.0), |c: Client| self.accounts@[c.0])
    }

    closed spec fn tx_map(&self) -> Transactions {
        Map::new(|t: TxId| self.transactions@.contains_key(t.0), |t: TxId| self.transactions@[t.0])
    }

    closed spec fn policy_spec(&self) -> Policy {
        self.policy
    }

    open spec fn infallible(&self) -> bool {
        true
    }

    fn policy(&self) -> (p: Policy) {
        self.policy
    }

    fn get_account(&self, client: Client) -> (r: Result<Option<Account>, std::io::Error>) {
        let r = match self.accounts.get(&client.0) {
            Some(a) => Some(*a),
            None => None,
        };
        assert(self.account_map().contains_key(client) == self.accounts@.contains_key(client.0));
        Ok(r)
    }

    fn put_account(&mut self, client: Client, account: Account) -> (r: Result<(), std::io::Error>) {
        self.accounts.insert(client.0, account);
        assert(self.account_map() =~= old(self).account_map().insert(client, account));
        Ok(())
    }

    fn accounts(&self) -> (r: Result<Vec<(Client, Account)>, std::io::Error>) {
        let mut out: Vec<(Client, Account)> = Vec::new();
        for kv in it: self.accounts.iter()
            invariant
                out.len() == it.index(),
                forall|i: int| 0 <= i < out.len() ==> out[i] == (Client(*it.seq()[i].0), *it.seq()[i].1),
                it.seq() == spec_hash_map_iter(&self.accounts).remaining(),
                it.seq().no_duplicates(),
        {
            out.push((Client(*kv.0), *kv.1));
        }
        proof {
            let m = self.accounts@;
            let s = spec_hash_map_iter(&self.accounts).remaining();
            assert(out.len() == s.len());
            assert forall|c: Client| #[trigger] self.account_map().contains_key(c) implies exists|i: int|
                0 <= i < out.len() && #[trigger] out@[i].0 == c by {
                assert(m.contains_key(c.0));
                assert(s.contains((&c.0, &m[c.0])));
                let i = choose|i: int| 0 <= i < s.len() && s[i] == (&c.0, &m[c.0]);
                assert(out@[i].0 == c);
            }
            assert forall|i: int, j: int| 0 <= i < j < out.len() implies out@[i].0 != out@[j].0 by {
                if out@[i].0 == out@[j].0 {
                    assert(m.contains_key(*s[i].0) && m.contains_key(*s[j].0));
                    assert(*s[i].0 == *s[j].0);
                    assert(*s[i].1 == *s[j].1);
                    assert(s[i] == s[j]);
                }
            }
        }
        Ok(out)
    }

    fn get_transaction(&self, tx_id: TxId) -> (r: Result<Option<Transaction>, std::io::Error>) {
        let r = match self.transactions.get(&tx_id.0) {
            Some(t) => Some(*t),
            None => None,
        };
        assert(self.tx_map().contains_key(tx_id) == self.transactions@.contains_key(tx_id.0));
        Ok(r)
    }

    fn put_transaction(&mut self, tx_id: TxId, tx: Transaction) -> (r: Result<(), std::io::Error>) {
        self.transactions.insert(tx_id.0, tx);
        assert(self.tx_map() =~= old(self).tx_map().insert(tx_id, tx));
        Ok(())
    }

    fn transactions(&self) -> (r: Result<Vec<(TxId, Transaction)>, std::io::Error>) {
        let mut out: Vec<(TxId, Transaction)> = Vec::new();
        for kv in it: self.transactions.iter()
            invariant
                out.len() == it.index(),
                forall|i: int| 0 <= i < out.len() ==> out[i] == (TxId(*it.seq()[i].0), *it.seq()[i].1),
                it.seq() == spec_hash_map_iter(&self.transactions).remaining(),
                it.seq().no_duplicates(),
        {
            out.push((TxId(*kv.0), *kv.1));
        }
        proof {
            let m = self.transactions@;
            let s = spec_hash_map_iter(&self.transactions).remaining();
            assert(out.len() == s.len());
            assert forall|c: TxId| #[trigger] self.tx_map().contains_key(c) implies exists|i: int|
                0 <= i < out.len() && #[trigger] out@[i].0 == c by {
                assert(m.contains_key(c.0));
                assert(s.contains((&c.0, &m[c.0])));
                let i = choose|i: int| 0 <= i < s.len() && s[i] == (&c.0, &m[c.0]);
                assert(out@[i].0 == c);
            }
            assert forall|i: int, j: int| 0 <= i < j < out.len() implies out@[i].0 != out@[j].0 by {
                if out@[i].0 == out@[j].0 {
                    assert(m.contains_key(*s[i].0) && m.contains_key(*s[j].0));
                    assert(*s[i].0 == *s[j].0);
                    assert(*s[i].1 == *s[j].1);
                    assert(s[i] == s[j]);
                }
            }
        }
        Ok(out)
    }
}

} // verus!
