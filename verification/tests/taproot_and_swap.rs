use atomic_swap::keys::{combine_points, public_of_secret};
use atomic_swap::swap::{swap_step, wei_for_gwei, Role, SwapAction, SwapEvent, SwapState};
use atomic_swap::taproot::{
    build_taproot_address, revocation_policy, u32_dec_string, watch_step, Network, WatchStep,
    DELAY_BETWEEN_SYNC_ATTEMPT_SEC, MAX_NUMBER_OF_ATTEMPTS_TO_SYNC,
};
use atomic_swap::u256::U256;

fn secret(last: u8) -> [u8; 32] {
    let mut k = [0u8; 32];
    k[31] = last;
    k
}

#[test]
fn test_u32_dec_string() {
    assert_eq!(u32_dec_string(0), "0");
    assert_eq!(u32_dec_string(144), "144");
    assert_eq!(u32_dec_string(4294967295), "4294967295");
}

#[test]
fn test_revocation_policy_string() {
    let p = revocation_policy(144, "02aa");
    assert_eq!(p, "and(older(144),pk(02aa))");
}

#[test]
fn test_taproot_address_derivation() {
    let swap_key = public_of_secret(&secret(5)).unwrap();
    let responder_key = public_of_secret(&secret(9)).unwrap();
    let escrow = combine_points(&swap_key, &responder_key).unwrap();

    let a1 = build_taproot_address(&escrow, &responder_key, 144, &Network::Regtest).unwrap();
    let a2 = build_taproot_address(&escrow, &responder_key, 144, &Network::Regtest).unwrap();
    // Both parties derive the identical address from the same material.
    assert_eq!(a1, a2);
    assert!(a1.starts_with("bcrt1p"));

    // The address commits to the script leaf: a different delay moves it.
    let a3 = build_taproot_address(&escrow, &responder_key, 145, &Network::Regtest).unwrap();
    assert_ne!(a1, a3);
    // And to the internal key.
    let a4 = build_taproot_address(&responder_key, &responder_key, 144, &Network::Regtest).unwrap();
    assert_ne!(a1, a4);
    // Mainnet encoding differs from regtest.
    let a5 = build_taproot_address(&escrow, &responder_key, 144, &Network::Bitcoin).unwrap();
    assert!(a5.starts_with("bc1p"));
}

#[test]
fn test_watch_step() {
    // Polls count from zero, so the watch makes at most
    // MAX_NUMBER_OF_ATTEMPTS_TO_SYNC of them.
    assert_eq!(watch_step(0, true), WatchStep::Found);
    assert_eq!(
        watch_step(0, false),
        WatchStep::RetryAfterDelay(DELAY_BETWEEN_SYNC_ATTEMPT_SEC)
    );
    assert_eq!(
        watch_step(MAX_NUMBER_OF_ATTEMPTS_TO_SYNC - 2, false),
        WatchStep::RetryAfterDelay(5)
    );
    assert_eq!(
        watch_step(MAX_NUMBER_OF_ATTEMPTS_TO_SYNC - 1, false),
        WatchStep::GiveUp
    );
    assert_eq!(
        watch_step(MAX_NUMBER_OF_ATTEMPTS_TO_SYNC - 1, true),
        WatchStep::Found
    );
}

#[test]
fn test_wei_for_gwei() {
    assert_eq!(
        wei_for_gwei(1_000_000),
        U256::from_u128(1_000_000_000_000_000)
    );
    assert_eq!(wei_for_gwei(0), U256::zero());
    // no overflow at the top of the range
    let top = wei_for_gwei(u64::MAX);
    assert_eq!(
        top,
        U256::from_u128(u64::MAX as u128 * 1_000_000_000)
    );
}

#[test]
fn test_initiator_happy_path() {
    let (s, a) = swap_step(Role::Initiator, SwapState::Init, SwapEvent::ProofReady);
    assert_eq!((s, a), (SwapState::Proved, SwapAction::BroadcastBtcFunding));
    let (s, a) = swap_step(Role::Initiator, s, SwapEvent::BtcFundingBroadcast);
    assert_eq!((s, a), (SwapState::BtcFunded, SwapAction::Wait));
    let (s, a) = swap_step(Role::Initiator, s, SwapEvent::EthDeposited);
    assert_eq!((s, a), (SwapState::EthFunded, SwapAction::SubmitEthWithdraw));
    let (s, a) = swap_step(Role::Initiator, s, SwapEvent::EthWithdrawn);
    assert_eq!((s, a), (SwapState::RedeemedEth, SwapAction::Stop));
}

#[test]
fn test_responder_happy_path() {
    let (s, a) = swap_step(Role::Responder, SwapState::Init, SwapEvent::BtcFundingSeen);
    assert_eq!((s, a), (SwapState::BtcFunded, SwapAction::SubmitEthDeposit));
    let (s, a) = swap_step(Role::Responder, s, SwapEvent::EthDeposited);
    assert_eq!((s, a), (SwapState::EthFunded, SwapAction::Wait));
    let (s, a) = swap_step(Role::Responder, s, SwapEvent::WithdrawnSeen);
    assert_eq!((s, a), (SwapState::RedeemedEth, SwapAction::SpendBtcKeyPath));
    let (s, a) = swap_step(Role::Responder, s, SwapEvent::BtcRedeemed);
    assert_eq!((s, a), (SwapState::RedeemedBtc, SwapAction::Stop));
}

#[test]
fn test_refund_and_revocation_paths() {
    // Responder refund: the lock time passes with no withdraw.
    let (s, a) = swap_step(Role::Responder, SwapState::EthFunded, SwapEvent::LockTimeExpired);
    assert_eq!((s, a), (SwapState::EthFunded, SwapAction::SubmitEthRestore));
    let (s, a) = swap_step(Role::Responder, s, SwapEvent::EthRestored);
    assert_eq!((s, a), (SwapState::RefundedEth, SwapAction::Stop));

    // Initiator revocation: the CSV delay passes with no deposit.
    let (s, a) = swap_step(Role::Initiator, SwapState::BtcFunded, SwapEvent::CsvDelayExpired);
    assert_eq!(
        (s, a),
        (SwapState::BtcFunded, SwapAction::SpendBtcRevocationLeaf)
    );
    let (s, a) = swap_step(Role::Initiator, s, SwapEvent::BtcRevoked);
    assert_eq!((s, a), (SwapState::RevokedBtc, SwapAction::Stop));
}

#[test]
fn test_aborts() {
    assert_eq!(
        swap_step(Role::Initiator, SwapState::Init, SwapEvent::ProofFailed),
        (SwapState::Aborted, SwapAction::Stop)
    );
    assert_eq!(
        swap_step(Role::Responder, SwapState::Init, SwapEvent::ProofInvalid),
        (SwapState::Aborted, SwapAction::Stop)
    );
    assert_eq!(
        swap_step(Role::Responder, SwapState::Init, SwapEvent::BtcWatchTimeout),
        (SwapState::Aborted, SwapAction::Stop)
    );
    assert_eq!(
        swap_step(Role::Responder, SwapState::BtcFunded, SwapEvent::EthDepositFailed),
        (SwapState::Aborted, SwapAction::Stop)
    );
    // An observation that does not belong to the state changes nothing.
    assert_eq!(
        swap_step(Role::Initiator, SwapState::Init, SwapEvent::EthDeposited),
        (SwapState::Init, SwapAction::Wait)
    );
}
