//! The core of a taprootized atomic swap between a Bitcoin-native asset and
//! an EVM-native asset. One party locks sats in a taproot output whose key
//! path needs a joint escrow key; the counterparty locks wei under a
//! hashlock-and-timelock escrow contract. A Groth16 proof over BN254 binds
//! the two legs: it certifies knowledge of a secp256k1 scalar whose public
//! key and Poseidon hash are the claimed public signals. Revealing the scalar
//! on one chain lets the counterparty redeem on the other.
//!
//! The scalar codec, the signal and proof parsing, the escrow contract's
//! calldata, events and storage rules, the revocation policy, the witness
//! container and the coordinator's decisions are verified; signatures,
//! pairings, hashing and the chains themselves stay behind trusted wrappers
//! over the underlying libraries.

use vstd::prelude::*;

pub mod depositor;
pub mod escrow;
pub mod groth16;
pub mod keys;
pub mod pubsignals;
pub mod swap;
pub mod taproot;
pub mod u256;
pub mod witness;

verus! {

/// Amounts and timing parameters the two participants agree on before a swap.
#[derive(Clone, Copy, Debug, PartialEq, Eq)]
pub struct SwapParams {
    pub sats_to_swap: u64,
    pub gwei_to_swap: u64,
    pub bitcoin_csv_delay: u32,
    pub ethereum_timelock_secs: u64,
}

/// Paths to the compiled circuit artifacts used by the proving pipeline.
#[derive(Clone, Debug, PartialEq, Eq)]
pub struct CircomConfig {
    pub witnes_calculator_path: String,
    pub proving_key_path: String,
    pub verification_key_path: String,
}

} // verus!
