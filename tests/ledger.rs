use toybank::advanced::{account_key, index_by_client, partition_requests, states_in_lane, tx_key};
use toybank::basic::HashLedger;
use toybank::common::{Amount, Client, Ledger, Policy, TxError, TxId, TxState, TxType};
use toybank::exec::{
    account_states, check_request, execute_requests, process_request, validate_accounts,
    AccountState, ExecError, TxRequest,
};

/// An amount given in ten-thousandths.
fn amt(units: i64) -> Amount {
    Amount(units)
}

fn req(tx_type: TxType, client: u32, tx: u32, amount: Option<i64>) -> TxRequest {
    TxRequest { tx_type, client: client.into(), tx_id: tx.into(), amount: amount.map(Amount) }
}

fn deposit(client: u32, tx: u32, units: i64) -> TxRequest {
    req(TxType::Deposit, client, tx, Some(units))
}

fn withdrawal(client: u32, tx: u32, units: i64) -> TxRequest {
    req(TxType::Withdrawal, client, tx, Some(units))
}

fn dispute(client: u32, tx: u32) -> TxRequest {
    req(TxType::Dispute, client, tx, None)
}

fn resolve(client: u32, tx: u32) -> TxRequest {
    req(TxType::Resolve, client, tx, None)
}

fn chargeback(client: u32, tx: u32) -> TxRequest {
    req(TxType::Chargeback, client, tx, None)
}

fn state(client: u16, available: i64, held: i64, total: i64, locked: bool) -> AccountState {
    AccountState { client: Client(client), available: amt(available), held: amt(held), total: amt(total), locked }
}

/// The sample event stream of the command-line tool.
fn sample_transactions() -> Vec<TxRequest> {
    vec![
        deposit(1, 1, 10000),
        deposit(2, 2, 20000),
        deposit(3, 3, 30000),
        withdrawal(1, 4, 11000),
        withdrawal(2, 5, 11111),
        dispute(1, 4),
        resolve(1, 3),
        resolve(1, 4),
        dispute(1, 4),
        dispute(2, 2),
        deposit(2, 5, 41111),
        deposit(2, 6, 41111),
        dispute(2, 2),
        chargeback(2, 2),
    ]
}

fn sample_accounts() -> Vec<AccountState> {
    vec![
        state(1, 10000, 0, 10000, false),
        state(2, 30000, 0, 30000, true),
        state(3, 30000, 0, 30000, false),
    ]
}

fn account(l: &HashLedger, c: u16) -> (i64, i64, i64, bool) {
    let a = l.get_account(Client(c)).unwrap().unwrap();
    (a.available.0, a.held.0, a.total.0, a.locked)
}

fn is_rejected(r: &Result<(), TxError>) -> bool {
    matches!(r, Err(TxError::Rejected(_)))
}

fn is_ignored(r: &Result<(), TxError>) -> bool {
    matches!(r, Err(TxError::Ignored(_)))
}

#[test]
fn test_csv_processing() {
    let mut ledger = HashLedger::new();
    execute_requests(&sample_transactions(), &mut ledger).unwrap();
    validate_accounts(&sample_accounts(), &ledger).unwrap();
}

#[test]
fn test_concurrent_csv_processing_2() {
    let n = 3;
    let lanes = partition_requests(&sample_transactions(), n);
    let mut shards: Vec<HashLedger> = (0..n).map(|_| HashLedger::default()).collect();
    for (lane, shard) in lanes.iter().zip(shards.iter_mut()) {
        execute_requests(lane, shard).unwrap();
    }
    for expected in sample_accounts() {
        let shard = &shards[index_by_client(expected.client, n)];
        validate_accounts(&vec![expected], shard).unwrap();
    }
}

#[test]
fn basic_lifecycle() {
    let mut l = HashLedger::new();
    let events = vec![
        deposit(1, 1, 10000),
        deposit(2, 2, 20000),
        deposit(3, 3, 30000),
        withdrawal(1, 4, 11000),
        withdrawal(2, 5, 11111),
        dispute(1, 1),
        resolve(1, 3),
        resolve(1, 1),
        dispute(1, 1),
        dispute(2, 2),
        deposit(2, 6, 41111),
        dispute(2, 2),
        chargeback(2, 2),
        deposit(2, 5, 41111),
    ];
    execute_requests(&events, &mut l).unwrap();
    assert_eq!(account(&l, 1), (10000, 0, 10000, false));
    assert_eq!(account(&l, 2), (30000, 0, 30000, true));
    assert_eq!(account(&l, 3), (30000, 0, 30000, false));
}

#[test]
fn basic_lifecycle_verdicts() {
    let mut l = HashLedger::new();
    assert!(l.deposit(Client(1), TxId(1), amt(10000)).is_ok());
    assert!(l.deposit(Client(2), TxId(2), amt(20000)).is_ok());
    assert!(l.deposit(Client(3), TxId(3), amt(30000)).is_ok());
    assert!(is_rejected(&l.withdrawal(Client(1), TxId(4), amt(11000))));
    assert!(l.withdrawal(Client(2), TxId(5), amt(11111)).is_ok());
    assert!(l.dispute(Client(1), TxId(1)).is_ok());
    assert!(is_rejected(&l.resolve(Client(1), TxId(3))));
    assert!(l.resolve(Client(1), TxId(1)).is_ok());
    assert!(is_rejected(&l.dispute(Client(1), TxId(1))));
    assert!(is_rejected(&l.dispute(Client(2), TxId(2))));
    assert!(l.deposit(Client(2), TxId(6), amt(41111)).is_ok());
    assert!(l.dispute(Client(2), TxId(2)).is_ok());
    assert!(l.chargeback(Client(2), TxId(2)).is_ok());
    assert!(is_rejected(&l.deposit(Client(2), TxId(7), amt(41111))));
}

#[test]
fn duplicate_tx_id() {
    let mut l = HashLedger::new();
    assert!(l.deposit(Client(1), TxId(1), amt(50000)).is_ok());
    assert!(is_ignored(&l.deposit(Client(1), TxId(1), amt(70000))));
    assert_eq!(account(&l, 1), (50000, 0, 50000, false));
}

#[test]
fn cross_client_dispute() {
    let mut l = HashLedger::new();
    assert!(l.deposit(Client(1), TxId(1), amt(100000)).is_ok());
    assert!(l.deposit(Client(2), TxId(2), amt(100000)).is_ok());
    assert!(is_rejected(&l.dispute(Client(2), TxId(1))));
    assert_eq!(account(&l, 1), (100000, 0, 100000, false));
    assert_eq!(account(&l, 2), (100000, 0, 100000, false));
}

#[test]
fn negative_balance_policy() {
    let mut l = HashLedger::with_policy(Policy { allow_negative_balance_for_dispute: true });
    assert!(l.deposit(Client(1), TxId(1), amt(100000)).is_ok());
    assert!(l.withdrawal(Client(1), TxId(2), amt(80000)).is_ok());
    assert!(l.dispute(Client(1), TxId(1)).is_ok());
    assert_eq!(account(&l, 1), (-80000, 100000, 20000, false));
}

#[test]
fn dispute_beyond_available_default_policy() {
    let mut l = HashLedger::new();
    assert!(l.deposit(Client(1), TxId(1), amt(100000)).is_ok());
    assert!(l.withdrawal(Client(1), TxId(2), amt(80000)).is_ok());
    assert!(is_rejected(&l.dispute(Client(1), TxId(1))));
    assert_eq!(account(&l, 1), (20000, 0, 20000, false));
    assert_eq!(l.get_transaction(TxId(1)).unwrap().unwrap().state, TxState::Committed);
}

#[test]
fn locking_is_permanent() {
    let mut l = HashLedger::new();
    assert!(l.deposit(Client(1), TxId(1), amt(50000)).is_ok());
    assert!(l.dispute(Client(1), TxId(1)).is_ok());
    assert!(l.chargeback(Client(1), TxId(1)).is_ok());
    assert!(is_rejected(&l.deposit(Client(1), TxId(2), amt(50000))));
    assert!(is_rejected(&l.withdrawal(Client(1), TxId(3), amt(0))));
    assert_eq!(account(&l, 1), (0, 0, 0, true));
    assert_eq!(l.get_transaction(TxId(1)).unwrap().unwrap().state, TxState::Cancelled);
    assert!(l.get_transaction(TxId(2)).unwrap().is_none());
}

#[test]
fn sharding_preserves_per_client_order() {
    let events: Vec<TxRequest> = (1..=1000u32).map(|t| deposit(1, t, t as i64 * 10001)).collect();
    let expected: i64 = (1..=1000i64).map(|t| t * 10001).sum();
    let n = 8;
    let lanes = partition_requests(&events, n);
    let home = index_by_client(Client(1), n);
    for (i, lane) in lanes.iter().enumerate() {
        assert_eq!(lane.len(), if i == home { 1000 } else { 0 });
    }
    let mut l = HashLedger::new();
    execute_requests(&lanes[home], &mut l).unwrap();
    assert_eq!(account(&l, 1), (expected, 0, expected, false));
}

#[test]
fn same_stream_same_state_any_concurrency() {
    let events = vec![
        deposit(7, 1, 30000),
        withdrawal(7, 2, 10000),
        dispute(7, 1),
        deposit(7, 3, 5000),
        resolve(7, 1),
        withdrawal(7, 4, 40000),
    ];
    let mut single = HashLedger::new();
    execute_requests(&events, &mut single).unwrap();
    for n in [1usize, 2, 3, 8] {
        let lanes = partition_requests(&events, n);
        let mut l = HashLedger::new();
        execute_requests(&lanes[index_by_client(Client(7), n)], &mut l).unwrap();
        assert_eq!(account(&l, 7), account(&single, 7));
    }
    assert_eq!(account(&single, 7), (25000, 0, 25000, false));
}

#[test]
fn deposit_twice_is_ignored() {
    let mut l = HashLedger::new();
    assert!(l.deposit(Client(4), TxId(9), amt(12345)).is_ok());
    let before = account(&l, 4);
    assert!(is_ignored(&l.deposit(Client(4), TxId(9), amt(12345))));
    assert_eq!(account(&l, 4), before);
}

#[test]
fn dispute_then_resolve_restores() {
    let mut l = HashLedger::new();
    assert!(l.deposit(Client(1), TxId(1), amt(30000)).is_ok());
    assert!(l.deposit(Client(1), TxId(2), amt(20000)).is_ok());
    assert!(l.dispute(Client(1), TxId(1)).is_ok());
    assert_eq!(account(&l, 1), (20000, 30000, 50000, false));
    assert!(is_ignored(&l.dispute(Client(1), TxId(1))));
    assert!(l.resolve(Client(1), TxId(1)).is_ok());
    assert_eq!(account(&l, 1), (50000, 0, 50000, false));
    assert_eq!(l.get_transaction(TxId(1)).unwrap().unwrap().state, TxState::Finalized);
}

#[test]
fn dispute_then_chargeback_locks() {
    let mut l = HashLedger::new();
    assert!(l.deposit(Client(1), TxId(1), amt(30000)).is_ok());
    assert!(l.deposit(Client(1), TxId(2), amt(20000)).is_ok());
    assert!(l.dispute(Client(1), TxId(2)).is_ok());
    assert!(l.chargeback(Client(1), TxId(2)).is_ok());
    assert_eq!(account(&l, 1), (30000, 0, 30000, true));
}

#[test]
fn resolve_or_chargeback_without_dispute_rejected() {
    let mut l = HashLedger::new();
    assert!(l.deposit(Client(1), TxId(1), amt(30000)).is_ok());
    assert!(is_rejected(&l.resolve(Client(1), TxId(1))));
    assert!(is_rejected(&l.chargeback(Client(1), TxId(1))));
    assert!(is_rejected(&l.dispute(Client(1), TxId(99))));
    assert!(is_rejected(&l.dispute(Client(2), TxId(1))));
    assert_eq!(account(&l, 1), (30000, 0, 30000, false));
}

#[test]
fn withdrawal_exact_and_one_unit_over() {
    let mut l = HashLedger::new();
    assert!(l.deposit(Client(1), TxId(1), amt(15000)).is_ok());
    assert!(is_rejected(&l.withdrawal(Client(1), TxId(2), amt(15001))));
    assert_eq!(account(&l, 1), (15000, 0, 15000, false));
    assert!(l.withdrawal(Client(1), TxId(3), amt(15000)).is_ok());
    assert_eq!(account(&l, 1), (0, 0, 0, false));
}

#[test]
fn withdrawal_without_account_rejected() {
    let mut l = HashLedger::new();
    assert!(is_rejected(&l.withdrawal(Client(5), TxId(1), amt(1))));
    assert!(l.get_account(Client(5)).unwrap().is_none());
}

#[test]
fn withdrawal_duplicate_ignored() {
    let mut l = HashLedger::new();
    assert!(l.deposit(Client(1), TxId(1), amt(15000)).is_ok());
    assert!(is_ignored(&l.withdrawal(Client(1), TxId(1), amt(100))));
    assert_eq!(account(&l, 1), (15000, 0, 15000, false));
}

#[test]
fn dispute_of_withdrawal_rejected() {
    let mut l = HashLedger::new();
    assert!(l.deposit(Client(1), TxId(1), amt(15000)).is_ok());
    assert!(l.withdrawal(Client(1), TxId(2), amt(5000)).is_ok());
    assert!(is_rejected(&l.dispute(Client(1), TxId(2))));
    assert_eq!(account(&l, 1), (10000, 0, 10000, false));
    assert_eq!(l.get_transaction(TxId(2)).unwrap().unwrap().state, TxState::Finalized);
}

#[test]
fn overflowing_deposit_is_fatal() {
    let mut l = HashLedger::new();
    assert!(l.deposit(Client(1), TxId(1), amt(i64::MAX)).is_ok());
    assert!(matches!(l.deposit(Client(1), TxId(2), amt(1)), Err(TxError::StringError(_))));
    assert_eq!(account(&l, 1), (i64::MAX, 0, i64::MAX, false));
    let r = execute_requests(&vec![deposit(1, 3, 1), deposit(2, 4, 5)], &mut l);
    assert!(matches!(r, Err(ExecError::TxError(TxError::StringError(_)))));
    assert!(l.get_account(Client(2)).unwrap().is_none());
}

#[test]
fn missing_amount_is_fatal() {
    let mut l = HashLedger::new();
    assert!(matches!(check_request(&req(TxType::Deposit, 1, 1, None)), Err(ExecError::StringError(_))));
    assert!(matches!(check_request(&req(TxType::Withdrawal, 1, 1, None)), Err(ExecError::StringError(_))));
    assert!(check_request(&req(TxType::Dispute, 1, 1, None)).is_ok());
    assert!(check_request(&deposit(1, 1, 5)).is_ok());
    let r = process_request(&mut l, &req(TxType::Deposit, 1, 1, None));
    assert!(matches!(r, Err(TxError::StringError(_))));
    assert!(process_request(&mut l, &withdrawal(1, 2, 5)).is_ok());
    let r = execute_requests(&vec![deposit(1, 1, 5), req(TxType::Withdrawal, 1, 2, None), deposit(1, 3, 5)], &mut l);
    assert!(matches!(r, Err(ExecError::TxError(TxError::StringError(_)))));
    assert_eq!(account(&l, 1), (5, 0, 5, false));
}

#[test]
fn validate_reports_mismatch_and_missing() {
    let mut l = HashLedger::new();
    execute_requests(&sample_transactions(), &mut l).unwrap();
    assert!(matches!(validate_accounts(&vec![state(1, 10000, 0, 10001, false)], &l), Err(ExecError::StringError(_))));
    assert!(matches!(validate_accounts(&vec![state(9, 0, 0, 0, false)], &l), Err(ExecError::StringError(_))));
    assert!(validate_accounts(&vec![], &l).is_ok());
}

#[test]
fn snapshot_lists_every_account_once() {
    let mut l = HashLedger::new();
    execute_requests(&sample_transactions(), &mut l).unwrap();
    let mut states = account_states(&l).unwrap();
    states.sort_by_key(|s| s.client.0);
    assert_eq!(states, sample_accounts());
    assert_eq!(l.accounts().unwrap().len(), 3);
    assert_eq!(l.transactions().unwrap().len(), 5);
}

#[test]
fn shard_router_values() {
    assert_eq!(index_by_client(Client(0), 1), 0);
    assert_eq!(index_by_client(Client(1000), 3), 1);
    assert_eq!(index_by_client(Client(1000), 8), 3);
    assert_eq!(index_by_client(Client(5000), 3), 2);
    assert_eq!(index_by_client(Client(5000), 8), 7);
    assert_eq!(index_by_client(Client(40000), 8), 4);
    assert_eq!(index_by_client(Client(65535), 8), 3);
    assert_eq!(index_by_client(Client(65535), 0), 0);
    for c in 0..=u16::MAX {
        assert!(index_by_client(Client(c), 5) < 5);
    }
}

#[test]
fn lane_filter_keeps_own_clients() {
    let states = vec![state(1000, 1, 0, 1, false), state(5000, 2, 0, 2, false), state(40000, 3, 0, 3, false)];
    assert_eq!(states_in_lane(&states, 1, 3), vec![states[0], states[2]]);
    assert_eq!(states_in_lane(&states, 2, 3), vec![states[1]]);
    assert!(states_in_lane(&states, 0, 3).is_empty());
}

#[test]
fn store_keys() {
    assert_eq!(account_key(Client(0x0102)), vec![b'A', 1, 2]);
    assert_eq!(tx_key(TxId(0x01020304)), vec![b'T', 1, 2, 3, 4]);
    assert!(account_key(Client(255)) < account_key(Client(256)));
    assert!(tx_key(TxId(255)) < tx_key(TxId(65536)));
}

#[test]
fn ids_from_integers() {
    let c: Client = 70000u32.into();
    assert_eq!(c, Client(70000u32 as u16));
    let t: TxId = 7u32.into();
    assert_eq!(t, TxId(7));
    assert!(!Policy::default().allow_negative_balance_for_dispute);
}
