use crate::common::Client;
use crate::common::TxId;
use crate::exec::{AccountState, TxRequest};
use vstd::prelude::*;

verus! {

/// Capacity of each worker lane's queue.
pub const MSG_QUEUE_LENGTH: usize = 8;

/// The client id mixed by a multiplicative hash, in `[0, 2^32)`.
pub open spec fn mix(c: Client) -> int {
    ((c.0 + 1013904223) * 1664525) % 0x1_0000_0000
}

/// The lane, out of `n`, that serves client `c`.
pub open spec fn shard_of(c: Client, n: int) -> int {
    (mix(c) * n) / 0x1_0000_0000
}

/// The lane, out of `concurrency`, that serves client `c`: the same client
/// always lands in the same lane.
pub fn index_by_client(c: Client, concurrency: usize) -> (r: usize)
    ensures
        r == shard_of(c, concurrency as int),
        concurrency > 0 ==> r < concurrency,
{
    let index: u32 = c.0 as u32;
    let seeded: u64 = (index + 1013904223) as u64;
    assert(seeded * 1664525 <= u64::MAX) by (nonlinear_arith)
        requires
            seeded <= 65535 + 1013904223,
    ;
    let product: u64 = seeded * 1664525;
    let h: u32 = #[verifier::truncate] (product as u32);
    assert(h == product % 0x1_0000_0000) by (bit_vector)
        requires
            h == #[verifier::truncate] (product as u32),
    ;
    assert(h as u128 * concurrency as u128 <= u128::MAX) by (nonlinear_arith)
        requires
            h <= u32::MAX,
            concurrency <= u64::MAX,
    ;
    let x: u128 = h as u128 * concurrency as u128;
    proof {
        assert(h as int == mix(c));
        assert(concurrency > 0 ==> x / 0x1_0000_0000 < concurrency) by (nonlinear_arith)
            requires
                x == h as int * concurrency as int,
                0 <= h < 0x1_0000_0000,
        ;
        assert(x / 0x1_0000_0000 <= concurrency) by (nonlinear_arith)
            requires
                x == h as int * concurrency as int,
                0 <= h < 0x1_0000_0000,
        ;
    }
    (x / 0x1_0000_0000) as usize
}

/// The events of `reqs` that lane `lane` out of `n` receives, in their order.
pub open spec fn route(reqs: Seq<TxRequest>, n: int, lane: int) -> Seq<TxRequest> {
    reqs.filter(|r: TxRequest| shard_of(r.client, n) == lane)
}

/// Splits `reqs` among `n` lanes by client, keeping the order within each lane.
pub fn partition_requests(reqs: &Vec<TxRequest>, n: usize) -> (lanes: Vec<Vec<TxRequest>>)
    ensures
        lanes.len() == n,
        forall|lane: int| 0 <= lane < n ==> #[trigger] lanes[lane]@ == route(reqs@, n as int, lane),
{
    let mut lanes: Vec<Vec<TxRequest>> = Vec::new();
    let mut lane: usize = 0;
    while lane < n
        invariant
            0 <= lane <= n,
            lanes.len() == lane,
            forall|l: int| 0 <= l < lane ==> #[trigger] lanes[l]@ == route(reqs@, n as int, l),
        decreases n - lane,
    {
        let mut mine: Vec<TxRequest> = Vec::new();
        let mut i: usize = 0;
        while i < reqs.len()
            invariant
                0 <= i <= reqs.len(),
                lane < n,
                mine@ == route(reqs@.take(i as int), n as int, lane as int),
            decreases reqs.len() - i,
        {
            proof {
                reveal(Seq::filter);
                assert(reqs@.take(i as int + 1).drop_last() =~= reqs@.take(i as int));
            }
            let r = reqs[i];
            if index_by_client(r.client, n) == lane {
                mine.push(r);
            }
            i = i + 1;
        }
        proof {
            assert(reqs@.take(reqs.len() as int) =~= reqs@);
        }
        lanes.push(mine);
        lane = lane + 1;
    }
    lanes
}


/// The snapshot records of `states` whose client lane `lane` out of `n` serves.
pub open spec fn in_lane(states: Seq<AccountState>, n: int, lane: int) -> Seq<AccountState> {
    states.filter(|s: AccountState| shard_of(s.client, n) == lane)
}

/// Keeps the records of the clients that lane `lane` out of `n` serves, in
/// their order: where lanes share one store, each reports only its own.
pub fn states_in_lane(states: &Vec<AccountState>, lane: usize, n: usize) -> (r: Vec<AccountState>)
    ensures
        r@ == in_lane(states@, n as int, lane as int),
{
    let mut out: Vec<AccountState> = Vec::new();
    let mut i: usize = 0;
    while i < states.len()
        invariant
            0 <= i <= states.len(),
            out@ == in_lane(states@.take(i as int), n as int, lane as int),
        decreases states.len() - i,
    {
        proof {
            reveal(Seq::filter);
            assert(states@.take(i as int + 1).drop_last() =~= states@.take(i as int));
        }
        let s = states[i];
        if index_by_client(s.client, n) == lane {
            out.push(s);
        }
        i = i + 1;
    }
    proof {
        assert(states@.take(states.len() as int) =~= states@);
    }
    out
}

/// First byte of every account key of the persistent store.
pub const ACCOUNT_PREFIX: u8 = 65;

/// First byte of every transaction key of the persistent store.
pub const TX_PREFIX: u8 = 84;

/// `x`'s lowest `len` bytes, most significant first.
pub open spec fn be_bytes(x: nat, len: nat) -> Seq<u8>
    decreases len,
{
    if len == 0 {
        Seq::empty()
    } else {
        be_bytes(x / 256, (len - 1) as nat).push((x % 256) as u8)
    }
}

/// The persistent store's key for a client's account: the account prefix,
/// then the id in big-endian order, so that keys sort as ids do.
pub fn account_key(c: Client) -> (k: Vec<u8>)
    ensures
        k@ == seq![ACCOUNT_PREFIX].add(be_bytes(c.0 as nat, 2)),
{
    let k = vec![ACCOUNT_PREFIX, (c.0 / 256) as u8, (c.0 % 256) as u8];
    proof {
        assert(be_bytes(c.0 as nat, 2) =~= seq![(c.0 / 256) as u8, (c.0 % 256) as u8]) by {
            reveal_with_fuel(be_bytes, 3);
        }
        assert(k@ =~= seq![ACCOUNT_PREFIX].add(be_bytes(c.0 as nat, 2)));
    }
    k
}

/// The persistent store's key for a transaction: the transaction prefix,
/// then the id in big-endian order.
pub fn tx_key(t: TxId) -> (k: Vec<u8>)
    ensures
        k@ == seq![TX_PREFIX].add(be_bytes(t.0 as nat, 4)),
{
    let x = t.0;
    let k = vec![TX_PREFIX, (x / 16777216) as u8, (x / 65536 % 256) as u8, (x / 256 % 256) as u8, (x % 256) as u8];
    proof {
        let n = x as nat;
        assert(be_bytes(n, 4) =~= seq![(n / 256 / 256 / 256) as u8, (n / 256 / 256 % 256) as u8, (n / 256 % 256) as u8, (n % 256) as u8]) by {
            reveal_with_fuel(be_bytes, 5);
        }
        assert(n / 256 / 256 / 256 == n / 16777216) by (nonlinear_arith);
        assert(n / 256 / 256 % 256 == n / 65536 % 256) by (nonlinear_arith);
        assert(n / 16777216 < 256);
        assert(k@ =~= seq![TX_PREFIX].add(be_bytes(t.0 as nat, 4)));
    }
    k
}

} // verus!
