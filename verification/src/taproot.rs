use vstd::prelude::*;

use bdk::bitcoin;
use bdk::database::MemoryDatabase;
use bdk::descriptor::IntoWalletDescriptor;
use bdk::miniscript::descriptor::TapTree;
use bdk::miniscript::policy::Concrete;
use bdk::miniscript::Descriptor;
use bdk::wallet::AddressIndex;
use bdk::Wallet;
use std::str::FromStr;
use std::sync::Arc;

verus! {

use crate::keys::{UncompressedPoint, point_of_secret, point_sum, hex_of};

/// Errors of the taproot builder.
#[derive(Clone, Copy, Debug, PartialEq, Eq)]
pub enum TaprootError {
    /// The policy, descriptor or network was rejected.
    Rejected,
}

/// The Bitcoin network an address is encoded for.
#[derive(Clone, Copy, Debug, PartialEq, Eq, Structural)]
pub enum Network {
    Bitcoin,
    Testnet,
    Signet,
    Regtest,
}

/// The name under which bdk knows each network.
pub open spec fn spec_network_name(n: Network) -> Seq<char> {
    match n {
        Network::Bitcoin => seq!['b', 'i', 't', 'c', 'o', 'i', 'n'],
        Network::Testnet => seq!['t', 'e', 's', 't', 'n', 'e', 't'],
        Network::Signet => seq!['s', 'i', 'g', 'n', 'e', 't'],
        Network::Regtest => seq!['r', 'e', 'g', 't', 'e', 's', 't'],
    }
}

/// Writes the network's canonical name.
pub fn network_name(n: &Network) -> (r: &'static str)
    ensures
        r@ == spec_network_name(*n),
{
    proof {
        reveal_strlit("bitcoin");
        reveal_strlit("testnet");
        reveal_strlit("signet");
        reveal_strlit("regtest");
    }
    match n {
        Network::Bitcoin => "bitcoin",
        Network::Testnet => "testnet",
        Network::Signet => "signet",
        Network::Regtest => "regtest",
    }
}

/// The decimal numeral of a number, most significant digit first.
pub open spec fn spec_dec_chars(x: nat) -> Seq<char>
    decreases x,
{
    if x < 10 {
        seq![((0x30 + x) as u8) as char]
    } else {
        spec_dec_chars(x / 10).push(((0x30 + x % 10) as u8) as char)
    }
}

/// One decimal digit as a string slice.
fn digit_str(d: u32) -> (r: &'static str)
    requires
        d < 10,
    ensures
        r@ == seq![((0x30 + d) as u8) as char],
{
    proof {
        reveal_strlit("0");
        reveal_strlit("1");
        reveal_strlit("2");
        reveal_strlit("3");
        reveal_strlit("4");
        reveal_strlit("5");
        reveal_strlit("6");
        reveal_strlit("7");
        reveal_strlit("8");
        reveal_strlit("9");
    }
    if d == 0 {
        "0"
    } else if d == 1 {
        "1"
    } else if d == 2 {
        "2"
    } else if d == 3 {
        "3"
    } else if d == 4 {
        "4"
    } else if d == 5 {
        "5"
    } else if d == 6 {
        "6"
    } else if d == 7 {
        "7"
    } else if d == 8 {
        "8"
    } else {
        "9"
    }
}

/// Writes a number in decimal.
pub fn u32_dec_string(x: u32) -> (r: String)
    ensures
        r@ == spec_dec_chars(x as nat),
    decreases x,
{
    if x < 10 {
        digit_str(x).to_owned()
    } else {
        let mut s = u32_dec_string(x / 10);
        s.append(digit_str(x % 10));
        s
    }
}

/// The revocation-leaf policy `and(older(<delta>),pk(<key>))` over the CSV
/// delay and the funder's compressed public key in hex.
pub open spec fn spec_policy_chars(delta: u32, key_hex: Seq<char>) -> Seq<char> {
    seq!['a', 'n', 'd', '(', 'o', 'l', 'd', 'e', 'r', '('] + spec_dec_chars(delta as nat) + seq![
        ')',
        ',',
        'p',
        'k',
        '(',
    ] + key_hex + seq![')', ')']
}

/// Builds the revocation policy string.
pub fn revocation_policy(delta: u32, key_hex: &str) -> (r: String)
    ensures
        r@ == spec_policy_chars(delta, key_hex@),
{
    proof {
        reveal_strlit("and(older(");
        reveal_strlit("),pk(");
        reveal_strlit("))");
    }
    let mut s = "and(older(".to_owned();
    let num = u32_dec_string(delta);
    s.append(num.as_str());
    s.append("),pk(");
    s.append(key_hex);
    s.append("))");
    proof {
        assert(s@ =~= spec_policy_chars(delta, key_hex@));
    }
    s
}

/// The address of the taproot descriptor `tr(<internal key>, {<policy leaf>})`
/// on the named network, or `None` when the material is rejected. A pure
/// function of its inputs, evaluated by bdk's descriptor and wallet machinery.
pub uninterp spec fn taproot_address_of(
    internal_key_hex: Seq<char>,
    policy: Seq<char>,
    network: Seq<char>,
) -> Option<Seq<char>>;

/// Relies on miniscript's policy compiler (`Concrete::from_str`, `compile`),
/// `Descriptor::new_tr`, bdk's `into_wallet_descriptor` and a throwaway
/// memory wallet's `get_address`: for a fixed descriptor the first address is
/// a function of the inputs alone.
#[verifier::external_body]
pub(crate) fn derive_taproot_address(internal_key_hex: &str, policy: &str, network: &str) -> (r: Option<
    String,
>)
    ensures
        r is Some <==> taproot_address_of(internal_key_hex@, policy@, network@) is Some,
        r matches Some(a) ==> Some(a@) == taproot_address_of(internal_key_hex@, policy@, network@),
{
    let net = bitcoin::Network::from_str(network).ok()?;
    let secp = bitcoin::secp256k1::Secp256k1::new();
    let pol = Concrete::<String>::from_str(policy).ok()?;
    let ms = pol.compile().ok()?;
    let tree = TapTree::Leaf(Arc::new(ms));
    let desc = Descriptor::new_tr(internal_key_hex.to_string(), Some(tree)).ok()?;
    let (wd, _keys) = desc.to_string().into_wallet_descriptor(&secp, net).ok()?;
    let wallet = Wallet::new(wd, None, net, MemoryDatabase::new()).ok()?;
    let address = wallet.get_address(AddressIndex::New).ok()?;
    Some(address.address.to_string())
}

/// The swap's funding address as a function of the escrow point, the funder's
/// revocation point, the CSV delay and the network.
pub open spec fn spec_swap_address(
    escrow: UncompressedPoint,
    revocation: UncompressedPoint,
    delta: u32,
    network: Network,
) -> Option<Seq<char>> {
    taproot_address_of(
        hex_of(escrow.spec_compressed()),
        spec_policy_chars(delta, hex_of(revocation.spec_compressed())),
        spec_network_name(network),
    )
}

/// Derives the taproot funding address: key path spends against the escrow
/// key, the single script leaf is the funder's CSV-delayed revocation.
pub fn build_taproot_address(
    escrow: &UncompressedPoint,
    revocation: &UncompressedPoint,
    csv_delay: u32,
    network: &Network,
) -> (r: Result<String, TaprootError>)
    ensures
        r is Ok <==> spec_swap_address(*escrow, *revocation, csv_delay, *network) is Some,
        r matches Ok(a) ==> Some(a@) == spec_swap_address(*escrow, *revocation, csv_delay, *network),
{
    let revocation_hex = revocation.compressed_hex();
    let policy = revocation_policy(csv_delay, revocation_hex.as_str());
    let escrow_hex = escrow.compressed_hex();
    match derive_taproot_address(escrow_hex.as_str(), policy.as_str(), network_name(network)) {
        Some(a) => Ok(a),
        None => Err(TaprootError::Rejected),
    }
}

/// Escrow determinism: when the counterparty's public signals carry the swap
/// key `k * G` that the initiator holds — the fact the zero-knowledge proof
/// certifies — both parties name the same escrow point, so both derive the same
/// funding address, bit for bit.
pub proof fn lemma_escrow_address_determinism(
    k: Seq<u8>,
    parsed_swap_key: UncompressedPoint,
    responder_key: UncompressedPoint,
    delta: u32,
    network: Network,
    initiator_escrow: UncompressedPoint,
    responder_escrow: UncompressedPoint,
)
    requires
        parsed_swap_key.bytes@ == point_of_secret(k),
        Some(initiator_escrow.bytes@) == point_sum(point_of_secret(k), responder_key.bytes@),
        Some(responder_escrow.bytes@) == point_sum(parsed_swap_key.bytes@, responder_key.bytes@),
        initiator_escrow.bytes@[0] == 0x04u8,
        responder_escrow.bytes@[0] == 0x04u8,
    ensures
        spec_swap_address(initiator_escrow, responder_key, delta, network) == spec_swap_address(
            responder_escrow,
            responder_key,
            delta,
            network,
        ),
{
    assert(initiator_escrow.bytes@ == responder_escrow.bytes@);
    assert(initiator_escrow.spec_compressed() =~= responder_escrow.spec_compressed());
}

/// How many polls the funding watch makes before giving up.
pub const MAX_NUMBER_OF_ATTEMPTS_TO_SYNC: usize = 100;

/// Seconds between funding-watch polls.
pub const DELAY_BETWEEN_SYNC_ATTEMPT_SEC: u64 = 5;

/// What the funding watch does after one poll.
#[derive(Clone, Copy, Debug, PartialEq, Eq, Structural)]
pub enum WatchStep {
    /// An unspent output sits at the derived address: the swap is funded.
    Found,
    /// Poll again after the configured delay, in seconds.
    RetryAfterDelay(u64),
    /// The poll budget is spent: report the funding as absent.
    GiveUp,
}

/// Decides the watch loop. `attempt` numbers the poll just made, counting
/// from zero, so the watch makes at most `MAX_NUMBER_OF_ATTEMPTS_TO_SYNC`
/// polls: it stops as soon as one finds an unspent output, and gives up after
/// the last budgeted poll comes back empty.
pub fn watch_step(attempt: usize, found_unspent: bool) -> (r: WatchStep)
    ensures
        found_unspent ==> r == WatchStep::Found,
        !found_unspent && attempt >= MAX_NUMBER_OF_ATTEMPTS_TO_SYNC - 1 ==> r == WatchStep::GiveUp,
        !found_unspent && attempt < MAX_NUMBER_OF_ATTEMPTS_TO_SYNC - 1 ==> r
            == WatchStep::RetryAfterDelay(DELAY_BETWEEN_SYNC_ATTEMPT_SEC),
{
    if found_unspent {
        WatchStep::Found
    } else if attempt >= MAX_NUMBER_OF_ATTEMPTS_TO_SYNC - 1 {
        WatchStep::GiveUp
    } else {
        WatchStep::RetryAfterDelay(DELAY_BETWEEN_SYNC_ATTEMPT_SEC)
    }
}

} // verus!
