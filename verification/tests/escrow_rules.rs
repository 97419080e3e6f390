use atomic_swap::depositor::{DepositorErrors, EvmAddress};
use atomic_swap::escrow::EscrowLedger;
use atomic_swap::u256::U256;

fn addr(last: u8) -> EvmAddress {
    let mut bytes = [0u8; 20];
    bytes[19] = last;
    EvmAddress { bytes }
}

fn hash(last: u8) -> [u8; 32] {
    let mut h = [0u8; 32];
    h[31] = last;
    h
}

fn funded_ledger() -> EscrowLedger {
    let mut ledger = EscrowLedger::new(U256::from_u64(60));
    ledger
        .deposit(
            addr(2),
            addr(1),
            U256::from_u64(1000),
            hash(7),
            U256::from_u64(3600),
        )
        .unwrap();
    ledger
}

#[test]
fn test_deposit_emits_event() {
    let mut ledger = EscrowLedger::new(U256::from_u64(60));
    let ev = ledger
        .deposit(
            addr(2),
            addr(1),
            U256::from_u64(1000),
            hash(7),
            U256::from_u64(3600),
        )
        .unwrap();
    assert_eq!(ev.sender, addr(2));
    assert_eq!(ev.recipient, addr(1));
    assert_eq!(ev.amount, U256::from_u64(1000));
    assert_eq!(ev.lock_time, U256::from_u64(3600));
    assert_eq!(ev.secret_hash, hash(7));
    let rec = ledger.deposits(hash(7));
    assert_eq!(rec.sender, addr(2));
    assert!(!rec.is_withdrawn);
}

#[test]
fn test_deposit_argument_checks() {
    let mut ledger = EscrowLedger::new(U256::from_u64(60));
    assert!(matches!(
        ledger.deposit(
            addr(2),
            EvmAddress { bytes: [0; 20] },
            U256::from_u64(1),
            hash(1),
            U256::from_u64(3600)
        ),
        Err(DepositorErrors::ZeroAddressNotAllowed(_))
    ));
    assert!(matches!(
        ledger.deposit(addr(2), addr(1), U256::zero(), hash(1), U256::from_u64(3600)),
        Err(DepositorErrors::ZeroDepositAmount(_))
    ));
    match ledger.deposit(
        addr(2),
        addr(1),
        U256::from_u64(1),
        hash(1),
        U256::from_u64(59),
    ) {
        Err(DepositorErrors::LockTimeTooShort(e)) => {
            assert_eq!(e.provided_lock_time, U256::from_u64(59));
            assert_eq!(e.minimum_lock_time, U256::from_u64(60));
        }
        other => panic!("expected LockTimeTooShort, got {:?}", other),
    }
}

#[test]
fn test_second_deposit_same_hash_rejected() {
    let mut ledger = funded_ledger();
    // A second deposit under the same hash fails whatever its arguments.
    match ledger.deposit(
        addr(9),
        addr(8),
        U256::from_u64(5),
        hash(7),
        U256::from_u64(7200),
    ) {
        Err(DepositorErrors::DepositAlreadyExists(e)) => assert_eq!(e.secret_hash, hash(7)),
        other => panic!("expected DepositAlreadyExists, got {:?}", other),
    }
    // Even after the deposit is spent, the hash stays bound.
    ledger.withdraw(U256::from_u64(42), hash(7)).unwrap();
    assert!(matches!(
        ledger.deposit(
            addr(9),
            addr(8),
            U256::from_u64(5),
            hash(7),
            U256::from_u64(7200)
        ),
        Err(DepositorErrors::DepositAlreadyExists(_))
    ));
}

#[test]
fn test_withdraw_succeeds_only_on_matching_unspent_deposit() {
    let mut ledger = funded_ledger();
    // A secret whose hash matches no deposit is rejected.
    assert!(matches!(
        ledger.withdraw(U256::from_u64(42), hash(9)),
        Err(DepositorErrors::DepositDoesNotExist(_))
    ));
    // The matching hash pays the recipient and reveals the secret.
    let ev = ledger.withdraw(U256::from_u64(42), hash(7)).unwrap();
    assert_eq!(ev.recipient, addr(1));
    assert_eq!(ev.amount, U256::from_u64(1000));
    assert_eq!(ev.secret, U256::from_u64(42));
    assert_eq!(ev.secret_hash, hash(7));
    assert!(ledger.deposits(hash(7)).is_withdrawn);
    // A second withdraw of the same deposit is rejected.
    assert!(matches!(
        ledger.withdraw(U256::from_u64(42), hash(7)),
        Err(DepositorErrors::DepositAlreadyWithdrawn(_))
    ));
}

#[test]
fn test_restore_honors_time_lock() {
    let mut ledger = funded_ledger();
    match ledger.restore(hash(7), U256::from_u64(3599)) {
        Err(DepositorErrors::TimeLockNotExpired(e)) => {
            assert_eq!(e.current_time, U256::from_u64(3599));
            assert_eq!(e.lock_time, U256::from_u64(3600));
        }
        other => panic!("expected TimeLockNotExpired, got {:?}", other),
    }
    let ev = ledger.restore(hash(7), U256::from_u64(3600)).unwrap();
    assert_eq!(ev.sender, addr(2));
    assert_eq!(ev.amount, U256::from_u64(1000));
    assert_eq!(ev.secret_hash, hash(7));
    // The deposit is spent now: the withdraw path is closed.
    assert!(matches!(
        ledger.withdraw(U256::from_u64(42), hash(7)),
        Err(DepositorErrors::DepositAlreadyWithdrawn(_))
    ));
}

#[test]
fn test_restore_requires_existing_deposit() {
    let mut ledger = EscrowLedger::new(U256::from_u64(60));
    assert!(matches!(
        ledger.restore(hash(1), U256::from_u64(100000)),
        Err(DepositorErrors::DepositDoesNotExist(_))
    ));
}

#[test]
fn test_deposits_view_of_absent_key_is_zero_record() {
    let ledger = EscrowLedger::new(U256::from_u64(60));
    let rec = ledger.deposits(hash(1));
    assert_eq!(rec.sender.bytes, [0u8; 20]);
    assert_eq!(rec.recipient.bytes, [0u8; 20]);
    assert!(rec.amount.is_zero());
    assert!(rec.lock_time.is_zero());
    assert!(!rec.is_withdrawn);
    assert_eq!(ledger.min_lock_time(), U256::from_u64(60));
}
