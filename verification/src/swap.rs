use vstd::prelude::*;

verus! {

use crate::u256::U256;

/// The wei attached to the responder's deposit: the agreed gwei, scaled.
pub fn wei_for_gwei(gwei_to_swap: u64) -> (r: U256)
    ensures
        r@ == (gwei_to_swap as nat) * 1_000_000_000,
{
    U256::from_u128((gwei_to_swap as u128) * 1_000_000_000)
}

/// A party's place in the swap.
#[derive(Clone, Copy, Debug, PartialEq, Eq, Structural)]
pub enum Role {
    /// Offers sats, wants wei; holds the swap secret.
    Initiator,
    /// Offers wei, wants sats.
    Responder,
}

/// Where a swap instance stands.
#[derive(Clone, Copy, Debug, PartialEq, Eq, Structural)]
pub enum SwapState {
    Init,
    Proved,
    BtcFunded,
    EthFunded,
    RedeemedEth,
    RedeemedBtc,
    Done,
    RefundedEth,
    RevokedBtc,
    Aborted,
}

/// What a party observes between its own actions.
#[derive(Clone, Copy, Debug, PartialEq, Eq, Structural)]
pub enum SwapEvent {
    /// The witness and proof came out of the prover.
    ProofReady,
    /// Witness calculation or proving failed.
    ProofFailed,
    /// The taproot funding transaction was broadcast.
    BtcFundingBroadcast,
    /// The funding broadcast failed.
    BtcFundingFailed,
    /// The counterparty's proof verified and its funding output is unspent.
    BtcFundingSeen,
    /// The proof did not verify, or its signals had the wrong layout.
    ProofInvalid,
    /// The poll budget ran out without a funding output.
    BtcWatchTimeout,
    /// The escrow contract accepted the deposit.
    EthDeposited,
    /// The deposit transaction reverted.
    EthDepositFailed,
    /// A `Withdrawn` event carrying the plaintext secret was observed.
    WithdrawnSeen,
    /// The withdraw transaction landed.
    EthWithdrawn,
    /// The key-path spend of the taproot output landed.
    BtcRedeemed,
    /// The hashlock's lock time elapsed with no withdraw.
    LockTimeExpired,
    /// The escrow contract returned the deposit.
    EthRestored,
    /// The CSV delay elapsed with the funding output unspent.
    CsvDelayExpired,
    /// The revocation-leaf spend landed.
    BtcRevoked,
}

/// What the party must do next.
#[derive(Clone, Copy, Debug, PartialEq, Eq, Structural)]
pub enum SwapAction {
    /// Run the witness calculator and prover over a fresh secret.
    RunProver,
    /// Build the taproot address and broadcast the funding transaction, then
    /// hand proof and public signals to the counterparty.
    BroadcastBtcFunding,
    /// Verify the proof, re-derive the funding address, poll for its output.
    VerifyAndWatchBtc,
    /// Submit `deposit` with the initiator's address and the secret hash.
    SubmitEthDeposit,
    /// Submit `withdraw(k)`, revealing the swap secret on chain.
    SubmitEthWithdraw,
    /// Key-path spend the taproot output with the reconstructed escrow scalar.
    SpendBtcKeyPath,
    /// Submit `restore(h)` once the lock time has elapsed.
    SubmitEthRestore,
    /// Spend the taproot output through the revocation leaf.
    SpendBtcRevocationLeaf,
    /// Wait for the next observation.
    Wait,
    /// Nothing remains to do.
    Stop,
}

/// The coordinator: from a party's state and an observation to its next state
/// and action. Everything that touches a chain is an action; the machine only
/// decides.
pub open spec fn spec_swap_step(role: Role, state: SwapState, event: SwapEvent) -> (
    SwapState,
    SwapAction,
) {
    match (role, state, event) {
        (Role::Initiator, SwapState::Init, SwapEvent::ProofReady) => (
            SwapState::Proved,
            SwapAction::BroadcastBtcFunding,
        ),
        (Role::Initiator, SwapState::Init, SwapEvent::ProofFailed) => (
            SwapState::Aborted,
            SwapAction::Stop,
        ),
        (Role::Initiator, SwapState::Proved, SwapEvent::BtcFundingBroadcast) => (
            SwapState::BtcFunded,
            SwapAction::Wait,
        ),
        (Role::Initiator, SwapState::Proved, SwapEvent::BtcFundingFailed) => (
            SwapState::Aborted,
            SwapAction::Stop,
        ),
        (Role::Initiator, SwapState::BtcFunded, SwapEvent::EthDeposited) => (
            SwapState::EthFunded,
            SwapAction::SubmitEthWithdraw,
        ),
        (Role::Initiator, SwapState::BtcFunded, SwapEvent::CsvDelayExpired) => (
            SwapState::BtcFunded,
            SwapAction::SpendBtcRevocationLeaf,
        ),
        (Role::Initiator, SwapState::BtcFunded, SwapEvent::BtcRevoked) => (
            SwapState::RevokedBtc,
            SwapAction::Stop,
        ),
        (Role::Initiator, SwapState::EthFunded, SwapEvent::EthWithdrawn) => (
            SwapState::RedeemedEth,
            SwapAction::Stop,
        ),
        (Role::Responder, SwapState::Init, SwapEvent::BtcFundingSeen) => (
            SwapState::BtcFunded,
            SwapAction::SubmitEthDeposit,
        ),
        (Role::Responder, SwapState::Init, SwapEvent::ProofInvalid) => (
            SwapState::Aborted,
            SwapAction::Stop,
        ),
        (Role::Responder, SwapState::Init, SwapEvent::BtcWatchTimeout) => (
            SwapState::Aborted,
            SwapAction::Stop,
        ),
        (Role::Responder, SwapState::BtcFunded, SwapEvent::EthDeposited) => (
            SwapState::EthFunded,
            SwapAction::Wait,
        ),
        (Role::Responder, SwapState::BtcFunded, SwapEvent::EthDepositFailed) => (
            SwapState::Aborted,
            SwapAction::Stop,
        ),
        (Role::Responder, SwapState::EthFunded, SwapEvent::WithdrawnSeen) => (
            SwapState::RedeemedEth,
            SwapAction::SpendBtcKeyPath,
        ),
        (Role::Responder, SwapState::EthFunded, SwapEvent::LockTimeExpired) => (
            SwapState::EthFunded,
            SwapAction::SubmitEthRestore,
        ),
        (Role::Responder, SwapState::EthFunded, SwapEvent::EthRestored) => (
            SwapState::RefundedEth,
            SwapAction::Stop,
        ),
        (Role::Responder, SwapState::RedeemedEth, SwapEvent::BtcRedeemed) => (
            SwapState::RedeemedBtc,
            SwapAction::Stop,
        ),
        (_, s, _) => (s, SwapAction::Wait),
    }
}

/// Drives one coordinator step.
pub fn swap_step(role: Role, state: SwapState, event: SwapEvent) -> (r: (SwapState, SwapAction))
    ensures
        r == spec_swap_step(role, state, event),
{
    match (role, state, event) {
        (Role::Initiator, SwapState::Init, SwapEvent::ProofReady) => (
            SwapState::Proved,
            SwapAction::BroadcastBtcFunding,
        ),
        (Role::Initiator, SwapState::Init, SwapEvent::ProofFailed) => (
            SwapState::Aborted,
            SwapAction::Stop,
        ),
        (Role::Initiator, SwapState::Proved, SwapEvent::BtcFundingBroadcast) => (
            SwapState::BtcFunded,
            SwapAction::Wait,
        ),
        (Role::Initiator, SwapState::Proved, SwapEvent::BtcFundingFailed) => (
            SwapState::Aborted,
            SwapAction::Stop,
        ),
        (Role::Initiator, SwapState::BtcFunded, SwapEvent::EthDeposited) => (
            SwapState::EthFunded,
            SwapAction::SubmitEthWithdraw,
        ),
        (Role::Initiator, SwapState::BtcFunded, SwapEvent::CsvDelayExpired) => (
            SwapState::BtcFunded,
            SwapAction::SpendBtcRevocationLeaf,
        ),
        (Role::Initiator, SwapState::BtcFunded, SwapEvent::BtcRevoked) => (
            SwapState::RevokedBtc,
            SwapAction::Stop,
        ),
        (Role::Initiator, SwapState::EthFunded, SwapEvent::EthWithdrawn) => (
            SwapState::RedeemedEth,
            SwapAction::Stop,
        ),
        (Role::Responder, SwapState::Init, SwapEvent::BtcFundingSeen) => (
            SwapState::BtcFunded,
            SwapAction::SubmitEthDeposit,
        ),
        (Role::Responder, SwapState::Init, SwapEvent::ProofInvalid) => (
            SwapState::Aborted,
            SwapAction::Stop,
        ),
        (Role::Responder, SwapState::Init, SwapEvent::BtcWatchTimeout) => (
            SwapState::Aborted,
            SwapAction::Stop,
        ),
        (Role::Responder, SwapState::BtcFunded, SwapEvent::EthDeposited) => (
            SwapState::EthFunded,
            SwapAction::Wait,
        ),
        (Role::Responder, SwapState::BtcFunded, SwapEvent::EthDepositFailed) => (
            SwapState::Aborted,
            SwapAction::Stop,
        ),
        (Role::Responder, SwapState::EthFunded, SwapEvent::WithdrawnSeen) => (
            SwapState::RedeemedEth,
            SwapAction::SpendBtcKeyPath,
        ),
        (Role::Responder, SwapState::EthFunded, SwapEvent::LockTimeExpired) => (
            SwapState::EthFunded,
            SwapAction::SubmitEthRestore,
        ),
        (Role::Responder, SwapState::EthFunded, SwapEvent::EthRestored) => (
            SwapState::RefundedEth,
            SwapAction::Stop,
        ),
        (Role::Responder, SwapState::RedeemedEth, SwapEvent::BtcRedeemed) => (
            SwapState::RedeemedBtc,
            SwapAction::Stop,
        ),
        (_, s, _) => (s, SwapAction::Wait),
    }
}

/// The initiator releases the swap secret only once the counterparty's
/// deposit stands on the EVM chain: `SubmitEthWithdraw` is issued on the
/// `EthDeposited` observation and nowhere else.
pub proof fn lemma_secret_release_needs_deposit(role: Role, state: SwapState, event: SwapEvent)
    ensures
        spec_swap_step(role, state, event).1 == SwapAction::SubmitEthWithdraw ==> (role
            == Role::Initiator && state == SwapState::BtcFunded && event == SwapEvent::EthDeposited),
{
}

/// The responder deposits only once the initiator's taproot funding output
/// has been seen unspent: `SubmitEthDeposit` follows `BtcFundingSeen` alone.
pub proof fn lemma_deposit_needs_btc_funding(role: Role, state: SwapState, event: SwapEvent)
    ensures
        spec_swap_step(role, state, event).1 == SwapAction::SubmitEthDeposit ==> (role
            == Role::Responder && state == SwapState::Init && event == SwapEvent::BtcFundingSeen),
{
}

/// The joint on-chain state of one swap: what each chain has recorded.
pub struct JointState {
    pub btc_funded: bool,
    pub eth_deposited: bool,
    pub eth_withdrawn_by_a: bool,
    pub eth_restored_to_b: bool,
    pub btc_redeemed_by_b: bool,
    pub btc_revoked_by_a: bool,
}

/// The on-chain moves of a swap, in honest hands.
pub enum JointMove {
    /// A funds the taproot output.
    FundBtc,
    /// B, having seen the unspent funding, deposits under the secret hash.
    DepositEth,
    /// A withdraws the wei, revealing the secret on chain.
    WithdrawEth,
    /// B reclaims the deposit after the lock time, A never having withdrawn.
    RestoreEth,
    /// B key-path spends the taproot output with the revealed secret.
    RedeemBtc,
    /// A spends the taproot output through the revocation leaf after the CSV
    /// delay, not having taken the wei.
    RevokeBtc,
}

pub open spec fn initial_joint_state() -> JointState {
    JointState {
        btc_funded: false,
        eth_deposited: false,
        eth_withdrawn_by_a: false,
        eth_restored_to_b: false,
        btc_redeemed_by_b: false,
        btc_revoked_by_a: false,
    }
}

pub open spec fn btc_spent(s: JointState) -> bool {
    s.btc_redeemed_by_b || s.btc_revoked_by_a
}

/// When each move is open to an honest party: chain rules (an output spends
/// once, the hashlock pays once) plus the protocol's ordering.
pub open spec fn move_enabled(s: JointState, m: JointMove) -> bool {
    match m {
        JointMove::FundBtc => !s.btc_funded,
        JointMove::DepositEth => s.btc_funded && !btc_spent(s) && !s.eth_deposited,
        JointMove::WithdrawEth => s.eth_deposited && !s.eth_withdrawn_by_a && !s.eth_restored_to_b
            && !s.btc_revoked_by_a,
        JointMove::RestoreEth => s.eth_deposited && !s.eth_withdrawn_by_a && !s.eth_restored_to_b,
        JointMove::RedeemBtc => s.btc_funded && !btc_spent(s) && s.eth_withdrawn_by_a,
        JointMove::RevokeBtc => s.btc_funded && !btc_spent(s) && !s.eth_withdrawn_by_a,
    }
}

pub open spec fn apply_move(s: JointState, m: JointMove) -> JointState {
    match m {
        JointMove::FundBtc => JointState { btc_funded: true, ..s },
        JointMove::DepositEth => JointState { eth_deposited: true, ..s },
        JointMove::WithdrawEth => JointState { eth_withdrawn_by_a: true, ..s },
        JointMove::RestoreEth => JointState { eth_restored_to_b: true, ..s },
        JointMove::RedeemBtc => JointState { btc_redeemed_by_b: true, ..s },
        JointMove::RevokeBtc => JointState { btc_revoked_by_a: true, ..s },
    }
}

/// Runs moves left to right; a move that is not enabled leaves the state.
pub open spec fn run_moves(s: JointState, ms: Seq<JointMove>) -> JointState
    decreases ms.len(),
{
    if ms.len() == 0 {
        s
    } else {
        run_moves(apply_move(s, ms.first()), ms.drop_first())
    }
}

/// Whether every move in the sequence is enabled when its turn comes.
pub open spec fn honest_run(s: JointState, ms: Seq<JointMove>) -> bool
    decreases ms.len(),
{
    ms.len() == 0 || (move_enabled(s, ms.first()) && honest_run(
        apply_move(s, ms.first()),
        ms.drop_first(),
    ))
}

/// What every honestly reachable joint state satisfies.
pub open spec fn joint_inv(s: JointState) -> bool {
    &&& s.eth_deposited ==> s.btc_funded
    &&& s.eth_withdrawn_by_a ==> s.eth_deposited && !s.eth_restored_to_b && !s.btc_revoked_by_a
    &&& s.eth_restored_to_b ==> s.eth_deposited && !s.eth_withdrawn_by_a
    &&& s.btc_redeemed_by_b ==> s.btc_funded && s.eth_withdrawn_by_a && !s.btc_revoked_by_a
    &&& s.btc_revoked_by_a ==> s.btc_funded && !s.eth_withdrawn_by_a && !s.btc_redeemed_by_b
}

proof fn lemma_inv_preserved(s: JointState, m: JointMove)
    requires
        joint_inv(s),
        move_enabled(s, m),
    ensures
        joint_inv(apply_move(s, m)),
{
}

proof fn lemma_run_keeps_inv(s: JointState, ms: Seq<JointMove>)
    requires
        joint_inv(s),
        honest_run(s, ms),
    ensures
        joint_inv(run_moves(s, ms)),
    decreases ms.len(),
{
    if ms.len() > 0 {
        lemma_inv_preserved(s, ms.first());
        lemma_run_keeps_inv(apply_move(s, ms.first()), ms.drop_first());
    }
}

/// No further on-chain move is open: the execution is complete.
pub open spec fn terminal(s: JointState) -> bool {
    forall|m: JointMove| !(#[trigger] move_enabled(s, m))
}

/// Atomicity. In any complete honest execution from the empty state, either
/// the swap went through — the initiator took the wei and the responder took
/// the sats — or each party keeps or recovers its own asset: the taproot
/// output came back through the revocation leaf and the deposit, if one was
/// ever made, came back through `restore`. No execution gives one party both
/// assets: the initiator cannot both take the wei and reclaim the sats, and
/// the responder cannot both take the sats and reclaim the wei.
pub proof fn lemma_swap_atomicity(ms: Seq<JointMove>)
    requires
        honest_run(initial_joint_state(), ms),
        terminal(run_moves(initial_joint_state(), ms)),
    ensures
        ({
            let f = run_moves(initial_joint_state(), ms);
            &&& (f.btc_redeemed_by_b && f.eth_withdrawn_by_a) || (f.btc_revoked_by_a && (
            !f.eth_deposited || f.eth_restored_to_b))
            &&& !(f.eth_withdrawn_by_a && f.btc_revoked_by_a)
            &&& !(f.btc_redeemed_by_b && f.eth_restored_to_b)
        }),
{
    let f = run_moves(initial_joint_state(), ms);
    lemma_run_keeps_inv(initial_joint_state(), ms);
    assert(!move_enabled(f, JointMove::FundBtc));
    assert(!move_enabled(f, JointMove::DepositEth));
    assert(!move_enabled(f, JointMove::WithdrawEth));
    assert(!move_enabled(f, JointMove::RestoreEth));
    assert(!move_enabled(f, JointMove::RedeemBtc));
    assert(!move_enabled(f, JointMove::RevokeBtc));
}

} // verus!
