use atomic_swap::depositor::{
    AbiError, DepositCall, Depositor, DepositorCalls, DepositorErrors, DepositorEvents,
    DepositsCall, DepositsReturn, EvmAddress, LockTimeTooShort, MinLockTimeCall, MinLockTimeReturn,
    RawLog, RestoreCall, WithdrawCall, ZeroDepositAmount,
};
use atomic_swap::u256::U256;

fn addr(last: u8) -> EvmAddress {
    let mut bytes = [0u8; 20];
    bytes[19] = last;
    EvmAddress { bytes }
}

fn hash(last: u8) -> [u8; 32] {
    let mut h = [0u8; 32];
    h[31] = last;
    h
}

#[test]
fn test_min_lock_time_calldata() {
    let dep = Depositor::new(addr(9));
    let call = dep.min_lock_time();
    assert_eq!(call.to, addr(9));
    assert_eq!(call.data, vec![0x3f, 0xf0, 0x32, 0x07]);
    assert!(call.value.is_zero());
}

#[test]
fn test_deposit_calldata_layout() {
    let dep = Depositor::new(addr(1));
    let call = dep.deposit(addr(0xAA), hash(0xBB), U256::from_u64(3600));
    let d = &call.data;
    assert_eq!(d.len(), 100);
    assert_eq!(&d[0..4], &[0xeb, 0x22, 0x43, 0xf8]);
    // recipient word: 12 zero bytes, then the address
    assert_eq!(&d[4..16], &[0u8; 12]);
    assert_eq!(&d[16..36], &addr(0xAA).bytes);
    // secret hash word
    assert_eq!(&d[36..68], &hash(0xBB));
    // lock time word, big-endian
    assert_eq!(&d[68..98], &[0u8; 30]);
    assert_eq!(d[98], 0x0e);
    assert_eq!(d[99], 0x10);
}

#[test]
fn test_withdraw_restore_deposits_calldata() {
    let dep = Depositor::new(addr(1));
    let w = dep.withdraw(U256::from_u64(5));
    assert_eq!(&w.data[0..4], &[0x2e, 0x1a, 0x7d, 0x4d]);
    assert_eq!(w.data.len(), 36);
    assert_eq!(w.data[35], 5);
    let r = dep.restore(hash(7));
    assert_eq!(&r.data[0..4], &[0x20, 0x5e, 0x8d, 0x53]);
    assert_eq!(&r.data[4..36], &hash(7));
    let q = dep.deposits(hash(8));
    assert_eq!(&q.data[0..4], &[0x3d, 0x4d, 0xff, 0x7b]);
    assert_eq!(&q.data[4..36], &hash(8));
}

#[test]
fn test_with_value() {
    let dep = Depositor::new(addr(1));
    let call = dep
        .deposit(addr(2), hash(3), U256::from_u64(60))
        .with_value(U256::from_u128(1_000_000_000_000_000));
    assert_eq!(call.value, U256::from_u128(1_000_000_000_000_000));
}

#[test]
fn test_calls_round_trip() {
    let cases = vec![
        DepositorCalls::MinLockTime(MinLockTimeCall),
        DepositorCalls::Deposit(DepositCall {
            recipient: addr(0x11),
            secret_hash: hash(0x22),
            lock_time: U256::from_u64(7200),
        }),
        DepositorCalls::Deposits(DepositsCall(hash(0x33))),
        DepositorCalls::Restore(RestoreCall {
            secret_hash: hash(0x44),
        }),
        DepositorCalls::Withdraw(WithdrawCall {
            secret: U256::from_u64(99),
        }),
    ];
    for c in cases {
        let data = c.encode();
        assert_eq!(DepositorCalls::decode(data.as_slice()), Ok(c));
    }
}

#[test]
fn test_calls_decode_rejects_garbage() {
    assert_eq!(DepositorCalls::decode(&[]), Err(AbiError::InvalidData));
    assert_eq!(
        DepositorCalls::decode(&[0xde, 0xad, 0xbe, 0xef]),
        Err(AbiError::InvalidData)
    );
    // right selector, wrong length
    assert_eq!(
        DepositorCalls::decode(&[0x2e, 0x1a, 0x7d, 0x4d]),
        Err(AbiError::InvalidData)
    );
}

#[test]
fn test_errors_round_trip() {
    let cases = vec![
        DepositorErrors::DepositAlreadyExists(atomic_swap::depositor::DepositAlreadyExists {
            secret_hash: hash(1),
        }),
        DepositorErrors::DepositAlreadyWithdrawn(
            atomic_swap::depositor::DepositAlreadyWithdrawn {
                secret_hash: hash(2),
            },
        ),
        DepositorErrors::DepositDoesNotExist(atomic_swap::depositor::DepositDoesNotExist {
            secret_hash: hash(3),
        }),
        DepositorErrors::FailedInnerCall(atomic_swap::depositor::FailedInnerCall),
        DepositorErrors::LockTimeTooShort(LockTimeTooShort {
            provided_lock_time: U256::from_u64(10),
            minimum_lock_time: U256::from_u64(3600),
        }),
        DepositorErrors::TimeLockNotExpired(atomic_swap::depositor::TimeLockNotExpired {
            current_time: U256::from_u64(50),
            lock_time: U256::from_u64(99),
        }),
        DepositorErrors::ZeroAddressNotAllowed(atomic_swap::depositor::ZeroAddressNotAllowed),
        DepositorErrors::ZeroDepositAmount(ZeroDepositAmount),
        DepositorErrors::RevertString("insufficient funds".to_string()),
    ];
    for e in cases {
        let data = e.clone().encode();
        assert_eq!(DepositorErrors::decode(data.as_slice()), Ok(e));
    }
}

#[test]
fn test_revert_string_layout() {
    let e = DepositorErrors::RevertString("ab".to_string());
    let d = e.encode();
    assert_eq!(&d[0..4], &[0x08, 0xc3, 0x79, 0xa0]);
    // offset word = 32
    assert_eq!(d[35], 32);
    // length word = 2
    assert_eq!(d[67], 2);
    assert_eq!(&d[68..70], b"ab");
    // padded to a full word
    assert_eq!(d.len(), 100);
    assert_eq!(&d[70..100], &[0u8; 30]);
}

#[test]
fn test_valid_selector() {
    assert!(DepositorErrors::valid_selector([0x08, 0xc3, 0x79, 0xa0]));
    assert!(DepositorErrors::valid_selector([0x74, 0x46, 0x74, 0xae]));
    assert!(DepositorErrors::valid_selector([0xa9, 0xd2, 0x1a, 0x9d]));
    assert!(DepositorErrors::valid_selector([0x22, 0xb6, 0xcc, 0x9d]));
    assert!(DepositorErrors::valid_selector([0x14, 0x25, 0xea, 0x42]));
    assert!(DepositorErrors::valid_selector([0x7c, 0x71, 0x11, 0x59]));
    assert!(DepositorErrors::valid_selector([0x66, 0xdb, 0x93, 0x1a]));
    assert!(DepositorErrors::valid_selector([0x85, 0x79, 0xbe, 0xfe]));
    assert!(DepositorErrors::valid_selector([0x07, 0x8e, 0x1d, 0x85]));
    assert!(!DepositorErrors::valid_selector([0xde, 0xad, 0xbe, 0xef]));
}

#[test]
fn test_decode_deposited_log() {
    let dep = Depositor::new(addr(5));
    let filter = dep.deposited_filter();
    let mut topic_sender = [0u8; 32];
    topic_sender[31] = 0x0A;
    let mut topic_recipient = [0u8; 32];
    topic_recipient[31] = 0x0B;
    let mut data = Vec::new();
    data.extend_from_slice(&U256::from_u64(77).to_bytes_be());
    data.extend_from_slice(&U256::from_u64(3600).to_bytes_be());
    data.extend_from_slice(&hash(0xCC));
    let log = RawLog {
        topics: vec![filter.topic0.unwrap(), topic_sender, topic_recipient],
        data,
    };
    match DepositorEvents::decode_log(&log).unwrap() {
        DepositorEvents::DepositedFilter(f) => {
            assert_eq!(f.sender, addr(0x0A));
            assert_eq!(f.recipient, addr(0x0B));
            assert_eq!(f.amount, U256::from_u64(77));
            assert_eq!(f.lock_time, U256::from_u64(3600));
            assert_eq!(f.secret_hash, hash(0xCC));
        }
        other => panic!("wrong event: {:?}", other),
    }
}

#[test]
fn test_decode_withdrawn_log_carries_secret() {
    let dep = Depositor::new(addr(5));
    let filter = dep.withdrawn_filter();
    let mut topic_recipient = [0u8; 32];
    topic_recipient[31] = 0x0A;
    let mut data = Vec::new();
    data.extend_from_slice(&U256::from_u64(77).to_bytes_be());
    data.extend_from_slice(&U256::from_u64(424242).to_bytes_be());
    data.extend_from_slice(&hash(0xCC));
    let log = RawLog {
        topics: vec![filter.topic0.unwrap(), topic_recipient],
        data,
    };
    match DepositorEvents::decode_log(&log).unwrap() {
        DepositorEvents::WithdrawnFilter(f) => {
            assert_eq!(f.secret, U256::from_u64(424242));
            assert_eq!(f.secret_hash, hash(0xCC));
        }
        other => panic!("wrong event: {:?}", other),
    }
}

#[test]
fn test_decode_restored_log() {
    let dep = Depositor::new(addr(5));
    let filter = dep.restored_filter();
    let mut topic_sender = [0u8; 32];
    topic_sender[31] = 0x0D;
    let mut data = Vec::new();
    data.extend_from_slice(&U256::from_u64(11).to_bytes_be());
    data.extend_from_slice(&hash(0xEE));
    let log = RawLog {
        topics: vec![filter.topic0.unwrap(), topic_sender],
        data,
    };
    match DepositorEvents::decode_log(&log).unwrap() {
        DepositorEvents::RestoredFilter(f) => {
            assert_eq!(f.sender, addr(0x0D));
            assert_eq!(f.amount, U256::from_u64(11));
            assert_eq!(f.secret_hash, hash(0xEE));
        }
        other => panic!("wrong event: {:?}", other),
    }
}

#[test]
fn test_decode_log_rejects_unknown_topic() {
    let log = RawLog {
        topics: vec![[9u8; 32]],
        data: vec![],
    };
    assert_eq!(
        DepositorEvents::decode_log(&log),
        Err(AbiError::InvalidData)
    );
    let empty = RawLog {
        topics: vec![],
        data: vec![],
    };
    assert_eq!(
        DepositorEvents::decode_log(&empty),
        Err(AbiError::InvalidData)
    );
}

#[test]
fn test_events_filter_covers_all() {
    let dep = Depositor::new(addr(5));
    assert_eq!(dep.events().topic0, None);
    assert_eq!(dep.events().address, addr(5));
}

#[test]
fn test_decode_returns() {
    let mut data = Vec::new();
    data.extend_from_slice(&U256::from_u64(1234).to_bytes_be());
    let v = MinLockTimeReturn::decode(data.as_slice()).unwrap();
    assert_eq!(v.0, U256::from_u64(1234));

    let mut rec = Vec::new();
    let mut sender_word = [0u8; 32];
    sender_word[31] = 0x0A;
    let mut recipient_word = [0u8; 32];
    recipient_word[31] = 0x0B;
    rec.extend_from_slice(&sender_word);
    rec.extend_from_slice(&recipient_word);
    rec.extend_from_slice(&U256::from_u64(500).to_bytes_be());
    rec.extend_from_slice(&U256::from_u64(3600).to_bytes_be());
    rec.extend_from_slice(&U256::from_u64(1).to_bytes_be());
    let d = DepositsReturn::decode(rec.as_slice()).unwrap();
    assert_eq!(d.sender, addr(0x0A));
    assert_eq!(d.recipient, addr(0x0B));
    assert_eq!(d.amount, U256::from_u64(500));
    assert_eq!(d.lock_time, U256::from_u64(3600));
    assert!(d.is_withdrawn);

    // a bool word that is neither zero nor one is rejected
    let mut bad = rec.clone();
    bad[159] = 2;
    assert_eq!(
        DepositsReturn::decode(bad.as_slice()),
        Err(AbiError::InvalidData)
    );
}
