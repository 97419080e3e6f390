use vstd::prelude::*;

verus! {

use crate::u256::{U256, bytes_be_value, spec_be_bytes};

/// A 20-byte EVM account address.
#[derive(Clone, Copy, Debug, PartialEq, Eq)]
pub struct EvmAddress {
    pub bytes: [u8; 20],
}

impl EvmAddress {
    pub open spec fn spec_is_zero(self) -> bool {
        forall|i: int| 0 <= i < 20 ==> self.bytes@[i] == 0u8
    }

    pub fn zero() -> (r: EvmAddress)
        ensures
            r.spec_is_zero(),
    {
        EvmAddress { bytes: [0; 20] }
    }

    pub fn is_zero(&self) -> (r: bool)
        ensures
            r == self.spec_is_zero(),
    {
        let mut i: usize = 0;
        while i < 20
            invariant
                i <= 20,
                forall|j: int| 0 <= j < i ==> self.bytes@[j] == 0u8,
            decreases 20 - i,
        {
            if self.bytes[i] != 0 {
                return false;
            }
            i = i + 1;
        }
        true
    }

    pub fn eq_address(&self, other: &EvmAddress) -> (r: bool)
        ensures
            r == (self.bytes@ == other.bytes@),
    {
        let mut i: usize = 0;
        while i < 20
            invariant
                i <= 20,
                forall|j: int| 0 <= j < i ==> self.bytes@[j] == other.bytes@[j],
            decreases 20 - i,
        {
            if self.bytes[i] != other.bytes[i] {
                proof {
                    if self.bytes@ =~= other.bytes@ {
                        assert(false);
                    }
                }
                return false;
            }
            i = i + 1;
        }
        proof {
            assert(self.bytes@ =~= other.bytes@);
        }
        true
    }
}

/// A prepared contract call: target address, ABI calldata, attached wei.
#[derive(Clone, Debug, PartialEq, Eq)]
pub struct EthCall {
    pub to: EvmAddress,
    pub data: Vec<u8>,
    pub value: U256,
}

impl EthCall {
    /// The same call carrying `value` wei.
    pub fn with_value(self, value: U256) -> (r: EthCall)
        ensures
            r.to == self.to,
            r.data@ == self.data@,
            r.value == value,
    {
        EthCall { to: self.to, data: self.data, value }
    }
}

/// An event subscription: the contract address and, when one event is meant,
/// its topic-0 signature hash.
#[derive(Clone, Copy, Debug, PartialEq, Eq)]
pub struct EventFilter {
    pub address: EvmAddress,
    pub topic0: Option<[u8; 32]>,
}

/// An EVM log entry: indexed topics and the data words.
#[derive(Clone, Debug, PartialEq, Eq)]
pub struct RawLog {
    pub topics: Vec<[u8; 32]>,
    pub data: Vec<u8>,
}

/// Appends all of `b`.
pub fn push_bytes_pub(v: &mut Vec<u8>, b: &[u8])
    ensures
        final(v)@ == old(v)@ + b@,
{
    let n = b.len();
    for i in 0..n
        invariant
            n == b@.len(),
            v@ == old(v)@ + b@.take(i as int),
    {
        proof {
            assert((old(v)@ + b@.take(i as int)).push(b@[i as int]) =~= old(v)@ + b@.take(i + 1));
        }
        v.push(b[i]);
    }
    proof {
        assert(b@.take(n as int) =~= b@);
    }
}

/// The ABI word for an address: twelve zero bytes, then the address.
pub open spec fn spec_address_word(a: Seq<u8>) -> Seq<u8> {
    Seq::new(12, |i: int| 0u8) + a
}

/// Appends the ABI word of an address.
fn push_address_word(v: &mut Vec<u8>, a: &EvmAddress)
    ensures
        final(v)@ == old(v)@ + spec_address_word(a.bytes@),
{
    let ghost base = v@;
    let mut i: usize = 0;
    while i < 12
        invariant
            i <= 12,
            v@ == base + Seq::new(i as nat, |k: int| 0u8),
        decreases 12 - i,
    {
        proof {
            assert((base + Seq::new(i as nat, |k: int| 0u8)).push(0u8) =~= base + Seq::new(
                (i + 1) as nat,
                |k: int| 0u8,
            ));
        }
        v.push(0);
        i = i + 1;
    }
    push_bytes_pub(v, a.bytes.as_slice());
    proof {
        assert(v@ =~= base + spec_address_word(a.bytes@));
    }
}

// Function selectors, verbatim from the contract ABI.
pub open spec fn spec_sel_min_lock_time() -> Seq<u8> {
    seq![0x3fu8, 0xf0u8, 0x32u8, 0x07u8]
}

pub open spec fn spec_sel_deposit() -> Seq<u8> {
    seq![0xebu8, 0x22u8, 0x43u8, 0xf8u8]
}

pub open spec fn spec_sel_deposits() -> Seq<u8> {
    seq![0x3du8, 0x4du8, 0xffu8, 0x7bu8]
}

pub open spec fn spec_sel_restore() -> Seq<u8> {
    seq![0x20u8, 0x5eu8, 0x8du8, 0x53u8]
}

pub open spec fn spec_sel_withdraw() -> Seq<u8> {
    seq![0x2eu8, 0x1au8, 0x7du8, 0x4du8]
}

fn push_selector(v: &mut Vec<u8>, a: u8, b: u8, c: u8, d: u8)
    ensures
        final(v)@ == old(v)@ + seq![a, b, c, d],
{
    v.push(a);
    v.push(b);
    v.push(c);
    v.push(d);
    proof {
        assert(v@ =~= old(v)@ + seq![a, b, c, d]);
    }
}

/// Calldata of `MIN_LOCK_TIME()`.
pub open spec fn spec_min_lock_time_calldata() -> Seq<u8> {
    spec_sel_min_lock_time()
}

/// Calldata of `deposit(address,bytes32,uint256)`.
pub open spec fn spec_deposit_calldata(recipient: Seq<u8>, secret_hash: Seq<u8>, lock_time: nat) -> Seq<
    u8,
> {
    spec_sel_deposit() + spec_address_word(recipient) + secret_hash + spec_be_bytes(lock_time, 32)
}

/// Calldata of `deposits(bytes32)`.
pub open spec fn spec_deposits_calldata(secret_hash: Seq<u8>) -> Seq<u8> {
    spec_sel_deposits() + secret_hash
}

/// Calldata of `restore(bytes32)`.
pub open spec fn spec_restore_calldata(secret_hash: Seq<u8>) -> Seq<u8> {
    spec_sel_restore() + secret_hash
}

/// Calldata of `withdraw(uint256)`.
pub open spec fn spec_withdraw_calldata(secret: nat) -> Seq<u8> {
    spec_sel_withdraw() + spec_be_bytes(secret, 32)
}

// Event topic-0 hashes: keccak-256 of each event signature, verbatim from the ABI.
pub open spec fn spec_deposited_topic() -> Seq<u8> {
    seq![
        0xc6u8, 0xdau8, 0xf3u8, 0xf4u8, 0x4bu8, 0x89u8, 0x2bu8, 0x94u8, 0x6eu8, 0x8fu8, 0x05u8,
        0x4du8, 0xeeu8, 0x61u8, 0xa5u8, 0xc5u8, 0x44u8, 0x67u8, 0x3au8, 0x35u8, 0x5bu8, 0x8eu8,
        0xc6u8, 0xfdu8, 0x0bu8, 0xa7u8, 0x13u8, 0xe6u8, 0xe6u8, 0x75u8, 0x18u8, 0xdbu8,
    ]
}

pub open spec fn spec_restored_topic() -> Seq<u8> {
    seq![
        0xfau8, 0x6eu8, 0xfeu8, 0x1fu8, 0x98u8, 0x89u8, 0x75u8, 0x0fu8, 0xe1u8, 0x79u8, 0xcdu8,
        0x5fu8, 0xe4u8, 0x28u8, 0xd6u8, 0xedu8, 0xf3u8, 0x45u8, 0xf5u8, 0x12u8, 0x20u8, 0xb0u8,
        0x12u8, 0x30u8, 0x53u8, 0xa5u8, 0x3cu8, 0xc7u8, 0x12u8, 0x2eu8, 0xb5u8, 0x06u8,
    ]
}

pub open spec fn spec_withdrawn_topic() -> Seq<u8> {
    seq![
        0x31u8, 0x85u8, 0x92u8, 0x9fu8, 0x3du8, 0x23u8, 0x13u8, 0x98u8, 0x75u8, 0x97u8, 0xb0u8,
        0x64u8, 0x1du8, 0x54u8, 0x5eu8, 0xadu8, 0x48u8, 0x10u8, 0x38u8, 0xa0u8, 0x76u8, 0x8fu8,
        0xe9u8, 0x66u8, 0x0eu8, 0x0du8, 0x52u8, 0xbau8, 0xbeu8, 0xf4u8, 0x16u8, 0x0au8,
    ]
}

/// The `Deposited(address,address,uint256,uint256,bytes32)` topic hash.
pub fn deposited_topic() -> (r: [u8; 32])
    ensures
        r@ == spec_deposited_topic(),
{
    let r: [u8; 32] = [
        0xc6, 0xda, 0xf3, 0xf4, 0x4b, 0x89, 0x2b, 0x94, 0x6e, 0x8f, 0x05, 0x4d, 0xee, 0x61, 0xa5,
        0xc5, 0x44, 0x67, 0x3a, 0x35, 0x5b, 0x8e, 0xc6, 0xfd, 0x0b, 0xa7, 0x13, 0xe6, 0xe6, 0x75,
        0x18, 0xdb,
    ];
    proof {
        assert(r@ =~= spec_deposited_topic());
    }
    r
}

/// The `Restored(address,uint256,bytes32)` topic hash.
pub fn restored_topic() -> (r: [u8; 32])
    ensures
        r@ == spec_restored_topic(),
{
    let r: [u8; 32] = [
        0xfa, 0x6e, 0xfe, 0x1f, 0x98, 0x89, 0x75, 0x0f, 0xe1, 0x79, 0xcd, 0x5f, 0xe4, 0x28, 0xd6,
        0xed, 0xf3, 0x45, 0xf5, 0x12, 0x20, 0xb0, 0x12, 0x30, 0x53, 0xa5, 0x3c, 0xc7, 0x12, 0x2e,
        0xb5, 0x06,
    ];
    proof {
        assert(r@ =~= spec_restored_topic());
    }
    r
}

/// The `Withdrawn(address,uint256,uint256,bytes32)` topic hash.
pub fn withdrawn_topic() -> (r: [u8; 32])
    ensures
        r@ == spec_withdrawn_topic(),
{
    let r: [u8; 32] = [
        0x31, 0x85, 0x92, 0x9f, 0x3d, 0x23, 0x13, 0x98, 0x75, 0x97, 0xb0, 0x64, 0x1d, 0x54, 0x5e,
        0xad, 0x48, 0x10, 0x38, 0xa0, 0x76, 0x8f, 0xe9, 0x66, 0x0e, 0x0d, 0x52, 0xba, 0xbe, 0xf4,
        0x16, 0x0a,
    ];
    proof {
        assert(r@ =~= spec_withdrawn_topic());
    }
    r
}

/// The hashlock escrow contract, seen from a client: its deployed address and
/// the calls and event filters its ABI offers.
#[derive(Clone, Copy, Debug, PartialEq, Eq)]
pub struct Depositor {
    pub address: EvmAddress,
}

impl Depositor {
    /// A client of the contract deployed at `address`.
    pub fn new(address: EvmAddress) -> (r: Depositor)
        ensures
            r.address == address,
    {
        Depositor { address }
    }

    /// Prepares the contract's `MIN_LOCK_TIME` (0x3ff03207) call.
    pub fn min_lock_time(&self) -> (r: EthCall)
        ensures
            r.to == self.address,
            r.data@ == spec_min_lock_time_calldata(),
            r.value@ == 0,
    {
        let mut data: Vec<u8> = Vec::new();
        push_selector(&mut data, 0x3f, 0xf0, 0x32, 0x07);
        proof {
            assert(data@ =~= spec_min_lock_time_calldata());
        }
        EthCall { to: self.address, data, value: U256::zero() }
    }

    /// Prepares the contract's `deposit` (0xeb2243f8) call.
    pub fn deposit(&self, recipient: EvmAddress, secret_hash: [u8; 32], lock_time: U256) -> (r:
        EthCall)
        ensures
            r.to == self.address,
            r.data@ == spec_deposit_calldata(recipient.bytes@, secret_hash@, lock_time@),
            r.value@ == 0,
    {
        let mut data: Vec<u8> = Vec::new();
        push_selector(&mut data, 0xeb, 0x22, 0x43, 0xf8);
        push_address_word(&mut data, &recipient);
        push_bytes_pub(&mut data, secret_hash.as_slice());
        let lt = lock_time.to_be_bytes32();
        push_bytes_pub(&mut data, lt.as_slice());
        proof {
            assert(data@ =~= spec_deposit_calldata(recipient.bytes@, secret_hash@, lock_time@));
        }
        EthCall { to: self.address, data, value: U256::zero() }
    }

    /// Prepares the contract's `deposits` (0x3d4dff7b) view call.
    pub fn deposits(&self, p0: [u8; 32]) -> (r: EthCall)
        ensures
            r.to == self.address,
            r.data@ == spec_deposits_calldata(p0@),
            r.value@ == 0,
    {
        let mut data: Vec<u8> = Vec::new();
        push_selector(&mut data, 0x3d, 0x4d, 0xff, 0x7b);
        push_bytes_pub(&mut data, p0.as_slice());
        proof {
            assert(data@ =~= spec_deposits_calldata(p0@));
        }
        EthCall { to: self.address, data, value: U256::zero() }
    }

    /// Prepares the contract's `restore` (0x205e8d53) call.
    pub fn restore(&self, secret_hash: [u8; 32]) -> (r: EthCall)
        ensures
            r.to == self.address,
            r.data@ == spec_restore_calldata(secret_hash@),
            r.value@ == 0,
    {
        let mut data: Vec<u8> = Vec::new();
        push_selector(&mut data, 0x20, 0x5e, 0x8d, 0x53);
        push_bytes_pub(&mut data, secret_hash.as_slice());
        proof {
            assert(data@ =~= spec_restore_calldata(secret_hash@));
        }
        EthCall { to: self.address, data, value: U256::zero() }
    }

    /// Prepares the contract's `withdraw` (0x2e1a7d4d) call.
    pub fn withdraw(&self, secret: U256) -> (r: EthCall)
        ensures
            r.to == self.address,
            r.data@ == spec_withdraw_calldata(secret@),
            r.value@ == 0,
    {
        let mut data: Vec<u8> = Vec::new();
        push_selector(&mut data, 0x2e, 0x1a, 0x7d, 0x4d);
        let sb = secret.to_be_bytes32();
        push_bytes_pub(&mut data, sb.as_slice());
        proof {
            assert(data@ =~= spec_withdraw_calldata(secret@));
        }
        EthCall { to: self.address, data, value: U256::zero() }
    }

    /// The filter for the contract's `Deposited` event.
    pub fn deposited_filter(&self) -> (r: EventFilter)
        ensures
            r.address == self.address,
            r.topic0 matches Some(t) && t@ == spec_deposited_topic(),
    {
        EventFilter { address: self.address, topic0: Some(deposited_topic()) }
    }

    /// The filter for the contract's `Restored` event.
    pub fn restored_filter(&self) -> (r: EventFilter)
        ensures
            r.address == self.address,
            r.topic0 matches Some(t) && t@ == spec_restored_topic(),
    {
        EventFilter { address: self.address, topic0: Some(restored_topic()) }
    }

    /// The filter for the contract's `Withdrawn` event.
    pub fn withdrawn_filter(&self) -> (r: EventFilter)
        ensures
            r.address == self.address,
            r.topic0 matches Some(t) && t@ == spec_withdrawn_topic(),
    {
        EventFilter { address: self.address, topic0: Some(withdrawn_topic()) }
    }

    /// The filter for all of the contract's events.
    pub fn events(&self) -> (r: EventFilter)
        ensures
            r.address == self.address,
            r.topic0 is None,
    {
        EventFilter { address: self.address, topic0: None }
    }
}

} // verus!

verus! {

use vstd::slice::slice_subrange;

/// ABI decoding failure: the bytes fit none of the known shapes.
#[derive(Clone, Copy, Debug, PartialEq, Eq)]
pub enum AbiError {
    InvalidData,
}

/// Input of the `MIN_LOCK_TIME()` function.
#[derive(Clone, Copy, Debug, PartialEq, Eq)]
pub struct MinLockTimeCall;

/// Input of the `deposit(address,bytes32,uint256)` function.
#[derive(Clone, Copy, Debug, PartialEq, Eq)]
pub struct DepositCall {
    pub recipient: EvmAddress,
    pub secret_hash: [u8; 32],
    pub lock_time: U256,
}

/// Input of the `deposits(bytes32)` function.
#[derive(Clone, Copy, Debug, PartialEq, Eq)]
pub struct DepositsCall(pub [u8; 32]);

/// Input of the `restore(bytes32)` function.
#[derive(Clone, Copy, Debug, PartialEq, Eq)]
pub struct RestoreCall {
    pub secret_hash: [u8; 32],
}

/// Input of the `withdraw(uint256)` function.
#[derive(Clone, Copy, Debug, PartialEq, Eq)]
pub struct WithdrawCall {
    pub secret: U256,
}

/// All calls of the contract.
#[derive(Clone, Copy, Debug, PartialEq, Eq)]
pub enum DepositorCalls {
    MinLockTime(MinLockTimeCall),
    Deposit(DepositCall),
    Deposits(DepositsCall),
    Restore(RestoreCall),
    Withdraw(WithdrawCall),
}

/// Whether `d` is calldata of one of the contract's functions.
pub open spec fn spec_calls_wf(d: Seq<u8>) -> bool {
    ||| (d.len() == 4 && d == spec_sel_min_lock_time())
    ||| (d.len() == 100 && d.subrange(0, 4) == spec_sel_deposit())
    ||| (d.len() == 36 && d.subrange(0, 4) == spec_sel_deposits())
    ||| (d.len() == 36 && d.subrange(0, 4) == spec_sel_restore())
    ||| (d.len() == 36 && d.subrange(0, 4) == spec_sel_withdraw())
}

/// How a decoded call relates to its calldata. The twelve padding bytes of an
/// address word are ignored, as the ABI prescribes.
pub open spec fn spec_call_matches(d: Seq<u8>, c: DepositorCalls) -> bool {
    match c {
        DepositorCalls::MinLockTime(_) => d.len() == 4 && d == spec_sel_min_lock_time(),
        DepositorCalls::Deposit(dc) => d.len() == 100 && d.subrange(0, 4) == spec_sel_deposit()
            && dc.recipient.bytes@ == d.subrange(16, 36) && dc.secret_hash@ == d.subrange(36, 68)
            && dc.lock_time@ == bytes_be_value(d.subrange(68, 100)),
        DepositorCalls::Deposits(x) => d.len() == 36 && d.subrange(0, 4) == spec_sel_deposits()
            && x.0@ == d.subrange(4, 36),
        DepositorCalls::Restore(rc) => d.len() == 36 && d.subrange(0, 4) == spec_sel_restore()
            && rc.secret_hash@ == d.subrange(4, 36),
        DepositorCalls::Withdraw(wc) => d.len() == 36 && d.subrange(0, 4) == spec_sel_withdraw()
            && wc.secret@ == bytes_be_value(d.subrange(4, 36)),
    }
}

/// Copies 32 bytes at `off`.
fn read32(data: &[u8], off: usize) -> (r: [u8; 32])
    requires
        off + 32 <= data@.len(),
    ensures
        r@ == data@.subrange(off as int, off + 32),
{
    let n = data.len();
    let mut r: [u8; 32] = [0; 32];
    let mut i: usize = 0;
    while i < 32
        invariant
            n == data@.len(),
            off + 32 <= data@.len(),
            i <= 32,
            r@.len() == 32,
            forall|j: int| 0 <= j < i ==> r@[j] == data@[off + j],
        decreases 32 - i,
    {
        r[i] = data[off + i];
        i = i + 1;
    }
    proof {
        assert(r@ =~= data@.subrange(off as int, off + 32));
    }
    r
}

/// Copies the 20 address bytes of the word at `off`, skipping its padding.
fn read_address(data: &[u8], off: usize) -> (r: EvmAddress)
    requires
        off + 32 <= data@.len(),
    ensures
        r.bytes@ == data@.subrange(off + 12, off + 32),
{
    let n = data.len();
    let mut b: [u8; 20] = [0; 20];
    let mut i: usize = 0;
    while i < 20
        invariant
            n == data@.len(),
            off + 32 <= data@.len(),
            i <= 20,
            b@.len() == 20,
            forall|j: int| 0 <= j < i ==> b@[j] == data@[off + 12 + j],
        decreases 20 - i,
    {
        b[i] = data[off + 12 + i];
        i = i + 1;
    }
    proof {
        assert(b@ =~= data@.subrange(off + 12, off + 32));
    }
    EvmAddress { bytes: b }
}

/// Reads the uint256 word at `off`.
fn read_u256(data: &[u8], off: usize) -> (r: U256)
    requires
        off + 32 <= data@.len(),
    ensures
        r@ == bytes_be_value(data@.subrange(off as int, off + 32)),
{
    let n = data.len();
    let w = slice_subrange(data, off, off + 32);
    U256::from_bytes_be(w)
}

impl DepositorCalls {
    /// Encodes the call as canonical ABI calldata.
    pub fn encode(&self) -> (r: Vec<u8>)
        ensures
            spec_call_matches(r@, *self),
            spec_calls_wf(r@),
            r@ == match *self {
                DepositorCalls::MinLockTime(_) => spec_min_lock_time_calldata(),
                DepositorCalls::Deposit(c) => spec_deposit_calldata(
                    c.recipient.bytes@,
                    c.secret_hash@,
                    c.lock_time@,
                ),
                DepositorCalls::Deposits(c) => spec_deposits_calldata(c.0@),
                DepositorCalls::Restore(c) => spec_restore_calldata(c.secret_hash@),
                DepositorCalls::Withdraw(c) => spec_withdraw_calldata(c.secret@),
            },
    {
        let dep = Depositor::new(EvmAddress::zero());
        let call = match self {
            DepositorCalls::MinLockTime(_) => dep.min_lock_time(),
            DepositorCalls::Deposit(c) => dep.deposit(c.recipient, c.secret_hash, c.lock_time),
            DepositorCalls::Deposits(c) => dep.deposits(c.0),
            DepositorCalls::Restore(c) => dep.restore(c.secret_hash),
            DepositorCalls::Withdraw(c) => dep.withdraw(c.secret),
        };
        let r = call.data;
        proof {
            lemma_canonical_call_matches(r@, *self);
        }
        r
    }

    /// Decodes calldata by selector; rejects anything of the wrong shape.
    pub fn decode(data: &[u8]) -> (r: Result<DepositorCalls, AbiError>)
        ensures
            r is Ok <==> spec_calls_wf(data@),
            r matches Ok(c) ==> spec_call_matches(data@, c),
    {
        let n = data.len();
        if n < 4 {
            return Err(AbiError::InvalidData);
        }
        let s0 = data[0];
        let s1 = data[1];
        let s2 = data[2];
        let s3 = data[3];
        proof {
            assert(data@.subrange(0, 4) =~= seq![data@[0], data@[1], data@[2], data@[3]]);
        }
        if s0 == 0x3f && s1 == 0xf0 && s2 == 0x32 && s3 == 0x07 {
            if n == 4 {
                proof {
                    assert(data@ =~= spec_sel_min_lock_time());
                }
                Ok(DepositorCalls::MinLockTime(MinLockTimeCall))
            } else {
                proof {
                    lemma_selectors_distinct(data@);
                }
                Err(AbiError::InvalidData)
            }
        } else if s0 == 0xeb && s1 == 0x22 && s2 == 0x43 && s3 == 0xf8 {
            if n == 100 {
                let recipient = read_address(data, 4);
                let secret_hash = read32(data, 36);
                let lock_time = read_u256(data, 68);
                Ok(DepositorCalls::Deposit(DepositCall { recipient, secret_hash, lock_time }))
            } else {
                proof {
                    lemma_selectors_distinct(data@);
                }
                Err(AbiError::InvalidData)
            }
        } else if s0 == 0x3d && s1 == 0x4d && s2 == 0xff && s3 == 0x7b {
            if n == 36 {
                let h = read32(data, 4);
                Ok(DepositorCalls::Deposits(DepositsCall(h)))
            } else {
                proof {
                    lemma_selectors_distinct(data@);
                }
                Err(AbiError::InvalidData)
            }
        } else if s0 == 0x20 && s1 == 0x5e && s2 == 0x8d && s3 == 0x53 {
            if n == 36 {
                let h = read32(data, 4);
                Ok(DepositorCalls::Restore(RestoreCall { secret_hash: h }))
            } else {
                proof {
                    lemma_selectors_distinct(data@);
                }
                Err(AbiError::InvalidData)
            }
        } else if s0 == 0x2e && s1 == 0x1a && s2 == 0x7d && s3 == 0x4d {
            if n == 36 {
                let secret = read_u256(data, 4);
                Ok(DepositorCalls::Withdraw(WithdrawCall { secret }))
            } else {
                proof {
                    lemma_selectors_distinct(data@);
                }
                Err(AbiError::InvalidData)
            }
        } else {
            proof {
                lemma_selectors_distinct(data@);
            }
            Err(AbiError::InvalidData)
        }
    }
}

/// Each selector test in `decode` settles `spec_calls_wf` one way or the other.
proof fn lemma_selectors_distinct(d: Seq<u8>)
    requires
        d.len() >= 4,
    ensures
        d.subrange(0, 4) == spec_sel_min_lock_time() <==> (d[0] == 0x3fu8 && d[1] == 0xf0u8 && d[2]
            == 0x32u8 && d[3] == 0x07u8),
        d.subrange(0, 4) == spec_sel_deposit() <==> (d[0] == 0xebu8 && d[1] == 0x22u8 && d[2]
            == 0x43u8 && d[3] == 0xf8u8),
        d.subrange(0, 4) == spec_sel_deposits() <==> (d[0] == 0x3du8 && d[1] == 0x4du8 && d[2]
            == 0xffu8 && d[3] == 0x7bu8),
        d.subrange(0, 4) == spec_sel_restore() <==> (d[0] == 0x20u8 && d[1] == 0x5eu8 && d[2]
            == 0x8du8 && d[3] == 0x53u8),
        d.subrange(0, 4) == spec_sel_withdraw() <==> (d[0] == 0x2eu8 && d[1] == 0x1au8 && d[2]
            == 0x7du8 && d[3] == 0x4du8),
        d.len() == 4 ==> (d == spec_sel_min_lock_time() <==> d.subrange(0, 4)
            == spec_sel_min_lock_time()),
{
    let s = d.subrange(0, 4);
    assert(s.len() == 4 && s[0] == d[0] && s[1] == d[1] && s[2] == d[2] && s[3] == d[3]);
    if d[0] == 0x3fu8 && d[1] == 0xf0u8 && d[2] == 0x32u8 && d[3] == 0x07u8 {
        assert(s =~= spec_sel_min_lock_time());
    }
    if d[0] == 0xebu8 && d[1] == 0x22u8 && d[2] == 0x43u8 && d[3] == 0xf8u8 {
        assert(s =~= spec_sel_deposit());
    }
    if d[0] == 0x3du8 && d[1] == 0x4du8 && d[2] == 0xffu8 && d[3] == 0x7bu8 {
        assert(s =~= spec_sel_deposits());
    }
    if d[0] == 0x20u8 && d[1] == 0x5eu8 && d[2] == 0x8du8 && d[3] == 0x53u8 {
        assert(s =~= spec_sel_restore());
    }
    if d[0] == 0x2eu8 && d[1] == 0x1au8 && d[2] == 0x7du8 && d[3] == 0x4du8 {
        assert(s =~= spec_sel_withdraw());
    }
    if d.len() == 4 {
        assert(d =~= s);
    }
}

/// A canonical encoding matches the call it was made from.
proof fn lemma_canonical_call_matches(d: Seq<u8>, c: DepositorCalls)
    requires
        d == match c {
            DepositorCalls::MinLockTime(_) => spec_min_lock_time_calldata(),
            DepositorCalls::Deposit(dc) => spec_deposit_calldata(
                dc.recipient.bytes@,
                dc.secret_hash@,
                dc.lock_time@,
            ),
            DepositorCalls::Deposits(x) => spec_deposits_calldata(x.0@),
            DepositorCalls::Restore(rc) => spec_restore_calldata(rc.secret_hash@),
            DepositorCalls::Withdraw(wc) => spec_withdraw_calldata(wc.secret@),
        },
    ensures
        spec_call_matches(d, c),
        spec_calls_wf(d),
{
    crate::u256::lemma_pow256_32();
    match c {
        DepositorCalls::MinLockTime(_) => {},
        DepositorCalls::Deposit(dc) => {
            crate::u256::lemma_spec_be_bytes_value(dc.lock_time@, 32);
            assert(d.subrange(0, 4) =~= spec_sel_deposit());
            assert(d.subrange(16, 36) =~= dc.recipient.bytes@);
            assert(d.subrange(36, 68) =~= dc.secret_hash@);
            assert(d.subrange(68, 100) =~= spec_be_bytes(dc.lock_time@, 32));
        },
        DepositorCalls::Deposits(x) => {
            assert(d.subrange(0, 4) =~= spec_sel_deposits());
            assert(d.subrange(4, 36) =~= x.0@);
        },
        DepositorCalls::Restore(rc) => {
            assert(d.subrange(0, 4) =~= spec_sel_restore());
            assert(d.subrange(4, 36) =~= rc.secret_hash@);
        },
        DepositorCalls::Withdraw(wc) => {
            crate::u256::lemma_spec_be_bytes_value(wc.secret@, 32);
            assert(d.subrange(0, 4) =~= spec_sel_withdraw());
            assert(d.subrange(4, 36) =~= spec_be_bytes(wc.secret@, 32));
        },
    }
}

} // verus!

verus! {

use vstd::string::StringSliceAdditionalSpecFns;
use vstd::utf8::{encode_utf8, valid_utf8};

// Custom error selectors, verbatim from the contract ABI.
pub open spec fn spec_sel_deposit_already_exists() -> Seq<u8> {
    seq![0x74u8, 0x46u8, 0x74u8, 0xaeu8]
}

pub open spec fn spec_sel_deposit_already_withdrawn() -> Seq<u8> {
    seq![0xa9u8, 0xd2u8, 0x1au8, 0x9du8]
}

pub open spec fn spec_sel_deposit_does_not_exist() -> Seq<u8> {
    seq![0x22u8, 0xb6u8, 0xccu8, 0x9du8]
}

pub open spec fn spec_sel_failed_inner_call() -> Seq<u8> {
    seq![0x14u8, 0x25u8, 0xeau8, 0x42u8]
}

pub open spec fn spec_sel_lock_time_too_short() -> Seq<u8> {
    seq![0x7cu8, 0x71u8, 0x11u8, 0x59u8]
}

pub open spec fn spec_sel_time_lock_not_expired() -> Seq<u8> {
    seq![0x66u8, 0xdbu8, 0x93u8, 0x1au8]
}

pub open spec fn spec_sel_zero_address_not_allowed() -> Seq<u8> {
    seq![0x85u8, 0x79u8, 0xbeu8, 0xfeu8]
}

pub open spec fn spec_sel_zero_deposit_amount() -> Seq<u8> {
    seq![0x07u8, 0x8eu8, 0x1du8, 0x85u8]
}

pub open spec fn spec_sel_revert_string() -> Seq<u8> {
    seq![0x08u8, 0xc3u8, 0x79u8, 0xa0u8]
}

/// Custom error `DepositAlreadyExists(bytes32)`, selector 0x744674ae.
#[derive(Clone, Copy, Debug, PartialEq, Eq)]
pub struct DepositAlreadyExists {
    pub secret_hash: [u8; 32],
}

/// Custom error `DepositAlreadyWithdrawn(bytes32)`, selector 0xa9d21a9d.
#[derive(Clone, Copy, Debug, PartialEq, Eq)]
pub struct DepositAlreadyWithdrawn {
    pub secret_hash: [u8; 32],
}

/// Custom error `DepositDoesNotExist(bytes32)`, selector 0x22b6cc9d.
#[derive(Clone, Copy, Debug, PartialEq, Eq)]
pub struct DepositDoesNotExist {
    pub secret_hash: [u8; 32],
}

/// Custom error `FailedInnerCall()`, selector 0x1425ea42.
#[derive(Clone, Copy, Debug, PartialEq, Eq)]
pub struct FailedInnerCall;

/// Custom error `LockTimeTooShort(uint256,uint256)`, selector 0x7c711159.
#[derive(Clone, Copy, Debug, PartialEq, Eq)]
pub struct LockTimeTooShort {
    pub provided_lock_time: U256,
    pub minimum_lock_time: U256,
}

/// Custom error `TimeLockNotExpired(uint256,uint256)`, selector 0x66db931a.
#[derive(Clone, Copy, Debug, PartialEq, Eq)]
pub struct TimeLockNotExpired {
    pub current_time: U256,
    pub lock_time: U256,
}

/// Custom error `ZeroAddressNotAllowed()`, selector 0x8579befe.
#[derive(Clone, Copy, Debug, PartialEq, Eq)]
pub struct ZeroAddressNotAllowed;

/// Custom error `ZeroDepositAmount()`, selector 0x078e1d85.
#[derive(Clone, Copy, Debug, PartialEq, Eq)]
pub struct ZeroDepositAmount;

/// All revert reasons of the contract, including the standard solidity
/// revert string `Error(string)`, selector 0x08c379a0.
#[derive(Clone, Debug, PartialEq, Eq)]
pub enum DepositorErrors {
    DepositAlreadyExists(DepositAlreadyExists),
    DepositAlreadyWithdrawn(DepositAlreadyWithdrawn),
    DepositDoesNotExist(DepositDoesNotExist),
    FailedInnerCall(FailedInnerCall),
    LockTimeTooShort(LockTimeTooShort),
    TimeLockNotExpired(TimeLockNotExpired),
    ZeroAddressNotAllowed(ZeroAddressNotAllowed),
    ZeroDepositAmount(ZeroDepositAmount),
    RevertString(String),
}

/// Zero padding up to the next 32-byte boundary.
pub open spec fn spec_abi_pad_len(n: nat) -> nat {
    (((32 - n % 32) % 32) as nat)
}

/// The tail of a canonical `Error(string)` revert: offset word 32, the byte
/// length, the bytes, zero padding.
pub open spec fn spec_string_abi(b: Seq<u8>) -> Seq<u8> {
    spec_be_bytes(32, 32) + spec_be_bytes(b.len(), 32) + b + Seq::new(
        spec_abi_pad_len(b.len()),
        |i: int| 0u8,
    )
}

/// The revert data of each error, in the canonical layout Solidity emits.
pub open spec fn spec_error_encoding(e: DepositorErrors) -> Seq<u8> {
    match e {
        DepositorErrors::DepositAlreadyExists(x) => spec_sel_deposit_already_exists()
            + x.secret_hash@,
        DepositorErrors::DepositAlreadyWithdrawn(x) => spec_sel_deposit_already_withdrawn()
            + x.secret_hash@,
        DepositorErrors::DepositDoesNotExist(x) => spec_sel_deposit_does_not_exist()
            + x.secret_hash@,
        DepositorErrors::FailedInnerCall(_) => spec_sel_failed_inner_call(),
        DepositorErrors::LockTimeTooShort(x) => spec_sel_lock_time_too_short() + spec_be_bytes(
            x.provided_lock_time@,
            32,
        ) + spec_be_bytes(x.minimum_lock_time@, 32),
        DepositorErrors::TimeLockNotExpired(x) => spec_sel_time_lock_not_expired() + spec_be_bytes(
            x.current_time@,
            32,
        ) + spec_be_bytes(x.lock_time@, 32),
        DepositorErrors::ZeroAddressNotAllowed(_) => spec_sel_zero_address_not_allowed(),
        DepositorErrors::ZeroDepositAmount(_) => spec_sel_zero_deposit_amount(),
        DepositorErrors::RevertString(s) => spec_sel_revert_string() + spec_string_abi(
            encode_utf8(s@),
        ),
    }
}

/// Relies on `core::str::from_utf8`: `Some` exactly on valid UTF-8, and the
/// returned string's characters encode back to the input bytes.
#[verifier::external_body]
fn utf8_to_string(b: &[u8]) -> (r: Option<String>)
    ensures
        r is Some <==> valid_utf8(b@),
        r matches Some(s) ==> encode_utf8(s@) == b@,
{
    match core::str::from_utf8(b) {
        Ok(s) => Some(s.to_owned()),
        Err(_) => None,
    }
}

impl DepositorErrors {
    /// Whether revert data starting with this selector belongs to the contract.
    pub fn valid_selector(selector: [u8; 4]) -> (r: bool)
        ensures
            r == (selector@ == spec_sel_revert_string() || selector@
                == spec_sel_deposit_already_exists() || selector@
                == spec_sel_deposit_already_withdrawn() || selector@
                == spec_sel_deposit_does_not_exist() || selector@ == spec_sel_failed_inner_call()
                || selector@ == spec_sel_lock_time_too_short() || selector@
                == spec_sel_time_lock_not_expired() || selector@
                == spec_sel_zero_address_not_allowed() || selector@
                == spec_sel_zero_deposit_amount()),
    {
        let s0 = selector[0];
        let s1 = selector[1];
        let s2 = selector[2];
        let s3 = selector[3];
        proof {
            assert(selector@ =~= seq![selector@[0], selector@[1], selector@[2], selector@[3]]);
        }
        let r = (s0 == 0x08 && s1 == 0xc3 && s2 == 0x79 && s3 == 0xa0) || (s0 == 0x74 && s1 == 0x46
            && s2 == 0x74 && s3 == 0xae) || (s0 == 0xa9 && s1 == 0xd2 && s2 == 0x1a && s3 == 0x9d)
            || (s0 == 0x22 && s1 == 0xb6 && s2 == 0xcc && s3 == 0x9d) || (s0 == 0x14 && s1 == 0x25
            && s2 == 0xea && s3 == 0x42) || (s0 == 0x7c && s1 == 0x71 && s2 == 0x11 && s3 == 0x59)
            || (s0 == 0x66 && s1 == 0xdb && s2 == 0x93 && s3 == 0x1a) || (s0 == 0x85 && s1 == 0x79
            && s2 == 0xbe && s3 == 0xfe) || (s0 == 0x07 && s1 == 0x8e && s2 == 0x1d && s3 == 0x85);
        r
    }

    /// Encodes the revert data in the canonical layout Solidity emits.
    pub fn encode(self) -> (r: Vec<u8>)
        ensures
            r@ == spec_error_encoding(self),
    {
        let mut data: Vec<u8> = Vec::new();
        match &self {
            DepositorErrors::DepositAlreadyExists(x) => {
                push_selector(&mut data, 0x74, 0x46, 0x74, 0xae);
                push_bytes_pub(&mut data, x.secret_hash.as_slice());
                proof {
                    assert(data@ =~= spec_error_encoding(self));
                }
            },
            DepositorErrors::DepositAlreadyWithdrawn(x) => {
                push_selector(&mut data, 0xa9, 0xd2, 0x1a, 0x9d);
                push_bytes_pub(&mut data, x.secret_hash.as_slice());
                proof {
                    assert(data@ =~= spec_error_encoding(self));
                }
            },
            DepositorErrors::DepositDoesNotExist(x) => {
                push_selector(&mut data, 0x22, 0xb6, 0xcc, 0x9d);
                push_bytes_pub(&mut data, x.secret_hash.as_slice());
                proof {
                    assert(data@ =~= spec_error_encoding(self));
                }
            },
            DepositorErrors::FailedInnerCall(_) => {
                push_selector(&mut data, 0x14, 0x25, 0xea, 0x42);
                proof {
                    assert(data@ =~= spec_error_encoding(self));
                }
            },
            DepositorErrors::LockTimeTooShort(x) => {
                push_selector(&mut data, 0x7c, 0x71, 0x11, 0x59);
                let a = x.provided_lock_time.to_be_bytes32();
                push_bytes_pub(&mut data, a.as_slice());
                let b = x.minimum_lock_time.to_be_bytes32();
                push_bytes_pub(&mut data, b.as_slice());
                proof {
                    assert(data@ =~= spec_error_encoding(self));
                }
            },
            DepositorErrors::TimeLockNotExpired(x) => {
                push_selector(&mut data, 0x66, 0xdb, 0x93, 0x1a);
                let a = x.current_time.to_be_bytes32();
                push_bytes_pub(&mut data, a.as_slice());
                let b = x.lock_time.to_be_bytes32();
                push_bytes_pub(&mut data, b.as_slice());
                proof {
                    assert(data@ =~= spec_error_encoding(self));
                }
            },
            DepositorErrors::ZeroAddressNotAllowed(_) => {
                push_selector(&mut data, 0x85, 0x79, 0xbe, 0xfe);
                proof {
                    assert(data@ =~= spec_error_encoding(self));
                }
            },
            DepositorErrors::ZeroDepositAmount(_) => {
                push_selector(&mut data, 0x07, 0x8e, 0x1d, 0x85);
                proof {
                    assert(data@ =~= spec_error_encoding(self));
                }
            },
            DepositorErrors::RevertString(s) => {
                push_selector(&mut data, 0x08, 0xc3, 0x79, 0xa0);
                let off = U256::from_u64(32);
                let ob = off.to_be_bytes32();
                push_bytes_pub(&mut data, ob.as_slice());
                let bytes = s.as_str().as_bytes();
                let blen = bytes.len();
                let lw = U256::from_u64(blen as u64);
                let lb = lw.to_be_bytes32();
                push_bytes_pub(&mut data, lb.as_slice());
                push_bytes_pub(&mut data, bytes);
                let pad = (32 - blen % 32) % 32;
                let ghost before_pad = data@;
                let mut k: usize = 0;
                while k < pad
                    invariant
                        k <= pad,
                        data@ == before_pad + Seq::new(k as nat, |i: int| 0u8),
                    decreases pad - k,
                {
                    proof {
                        assert((before_pad + Seq::new(k as nat, |i: int| 0u8)).push(0u8)
                            =~= before_pad + Seq::new((k + 1) as nat, |i: int| 0u8));
                    }
                    data.push(0);
                    k = k + 1;
                }
                proof {
                    assert(pad == spec_abi_pad_len(encode_utf8(s@).len()));
                    assert(data@ =~= spec_error_encoding(self));
                }
            },
        }
        data
    }
}

} // verus!

verus! {

use vstd::slice::slice_subrange as subrange_for_string;

/// Whether `d` is revert data of one of the contract's errors.
pub open spec fn spec_errors_wf(d: Seq<u8>) -> bool {
    ||| (d.len() == 36 && d.subrange(0, 4) == spec_sel_deposit_already_exists())
    ||| (d.len() == 36 && d.subrange(0, 4) == spec_sel_deposit_already_withdrawn())
    ||| (d.len() == 36 && d.subrange(0, 4) == spec_sel_deposit_does_not_exist())
    ||| (d.len() == 4 && d == spec_sel_failed_inner_call())
    ||| (d.len() == 68 && d.subrange(0, 4) == spec_sel_lock_time_too_short())
    ||| (d.len() == 68 && d.subrange(0, 4) == spec_sel_time_lock_not_expired())
    ||| (d.len() == 4 && d == spec_sel_zero_address_not_allowed())
    ||| (d.len() == 4 && d == spec_sel_zero_deposit_amount())
    ||| spec_revert_string_wf(d)
}

/// Whether `d` is a canonical `Error(string)` revert; the padding bytes'
/// content is not examined, as the ABI prescribes.
pub open spec fn spec_revert_string_wf(d: Seq<u8>) -> bool {
    &&& d.len() >= 68
    &&& d.subrange(0, 4) == spec_sel_revert_string()
    &&& bytes_be_value(d.subrange(4, 36)) == 32
    &&& {
        let l = bytes_be_value(d.subrange(36, 68));
        d.len() == 68 + l + spec_abi_pad_len(l) && valid_utf8(d.subrange(68, 68 + l as int))
    }
}

/// How a decoded error relates to the revert data.
pub open spec fn spec_error_matches(d: Seq<u8>, e: DepositorErrors) -> bool {
    match e {
        DepositorErrors::DepositAlreadyExists(x) => d.len() == 36 && d.subrange(0, 4)
            == spec_sel_deposit_already_exists() && x.secret_hash@ == d.subrange(4, 36),
        DepositorErrors::DepositAlreadyWithdrawn(x) => d.len() == 36 && d.subrange(0, 4)
            == spec_sel_deposit_already_withdrawn() && x.secret_hash@ == d.subrange(4, 36),
        DepositorErrors::DepositDoesNotExist(x) => d.len() == 36 && d.subrange(0, 4)
            == spec_sel_deposit_does_not_exist() && x.secret_hash@ == d.subrange(4, 36),
        DepositorErrors::FailedInnerCall(_) => d.len() == 4 && d == spec_sel_failed_inner_call(),
        DepositorErrors::LockTimeTooShort(x) => d.len() == 68 && d.subrange(0, 4)
            == spec_sel_lock_time_too_short() && x.provided_lock_time@ == bytes_be_value(
            d.subrange(4, 36),
        ) && x.minimum_lock_time@ == bytes_be_value(d.subrange(36, 68)),
        DepositorErrors::TimeLockNotExpired(x) => d.len() == 68 && d.subrange(0, 4)
            == spec_sel_time_lock_not_expired() && x.current_time@ == bytes_be_value(
            d.subrange(4, 36),
        ) && x.lock_time@ == bytes_be_value(d.subrange(36, 68)),
        DepositorErrors::ZeroAddressNotAllowed(_) => d.len() == 4 && d
            == spec_sel_zero_address_not_allowed(),
        DepositorErrors::ZeroDepositAmount(_) => d.len() == 4 && d
            == spec_sel_zero_deposit_amount(),
        DepositorErrors::RevertString(s) => spec_revert_string_wf(d) && encode_utf8(s@)
            == d.subrange(68, 68 + bytes_be_value(d.subrange(36, 68)) as int),
    }
}

proof fn lemma_error_selectors(d: Seq<u8>)
    requires
        d.len() >= 4,
    ensures
        d.subrange(0, 4) == spec_sel_deposit_already_exists() <==> (d[0] == 0x74u8 && d[1]
            == 0x46u8 && d[2] == 0x74u8 && d[3] == 0xaeu8),
        d.subrange(0, 4) == spec_sel_deposit_already_withdrawn() <==> (d[0] == 0xa9u8 && d[1]
            == 0xd2u8 && d[2] == 0x1au8 && d[3] == 0x9du8),
        d.subrange(0, 4) == spec_sel_deposit_does_not_exist() <==> (d[0] == 0x22u8 && d[1]
            == 0xb6u8 && d[2] == 0xccu8 && d[3] == 0x9du8),
        d.subrange(0, 4) == spec_sel_failed_inner_call() <==> (d[0] == 0x14u8 && d[1] == 0x25u8
            && d[2] == 0xeau8 && d[3] == 0x42u8),
        d.subrange(0, 4) == spec_sel_lock_time_too_short() <==> (d[0] == 0x7cu8 && d[1] == 0x71u8
            && d[2] == 0x11u8 && d[3] == 0x59u8),
        d.subrange(0, 4) == spec_sel_time_lock_not_expired() <==> (d[0] == 0x66u8 && d[1] == 0xdbu8
            && d[2] == 0x93u8 && d[3] == 0x1au8),
        d.subrange(0, 4) == spec_sel_zero_address_not_allowed() <==> (d[0] == 0x85u8 && d[1]
            == 0x79u8 && d[2] == 0xbeu8 && d[3] == 0xfeu8),
        d.subrange(0, 4) == spec_sel_zero_deposit_amount() <==> (d[0] == 0x07u8 && d[1] == 0x8eu8
            && d[2] == 0x1du8 && d[3] == 0x85u8),
        d.subrange(0, 4) == spec_sel_revert_string() <==> (d[0] == 0x08u8 && d[1] == 0xc3u8 && d[2]
            == 0x79u8 && d[3] == 0xa0u8),
        d.len() == 4 ==> (d == d.subrange(0, 4)),
{
    let s = d.subrange(0, 4);
    assert(s.len() == 4 && s[0] == d[0] && s[1] == d[1] && s[2] == d[2] && s[3] == d[3]);
    if d[0] == 0x74u8 && d[1] == 0x46u8 && d[2] == 0x74u8 && d[3] == 0xaeu8 {
        assert(s =~= spec_sel_deposit_already_exists());
    }
    if d[0] == 0xa9u8 && d[1] == 0xd2u8 && d[2] == 0x1au8 && d[3] == 0x9du8 {
        assert(s =~= spec_sel_deposit_already_withdrawn());
    }
    if d[0] == 0x22u8 && d[1] == 0xb6u8 && d[2] == 0xccu8 && d[3] == 0x9du8 {
        assert(s =~= spec_sel_deposit_does_not_exist());
    }
    if d[0] == 0x14u8 && d[1] == 0x25u8 && d[2] == 0xeau8 && d[3] == 0x42u8 {
        assert(s =~= spec_sel_failed_inner_call());
    }
    if d[0] == 0x7cu8 && d[1] == 0x71u8 && d[2] == 0x11u8 && d[3] == 0x59u8 {
        assert(s =~= spec_sel_lock_time_too_short());
    }
    if d[0] == 0x66u8 && d[1] == 0xdbu8 && d[2] == 0x93u8 && d[3] == 0x1au8 {
        assert(s =~= spec_sel_time_lock_not_expired());
    }
    if d[0] == 0x85u8 && d[1] == 0x79u8 && d[2] == 0xbeu8 && d[3] == 0xfeu8 {
        assert(s =~= spec_sel_zero_address_not_allowed());
    }
    if d[0] == 0x07u8 && d[1] == 0x8eu8 && d[2] == 0x1du8 && d[3] == 0x85u8 {
        assert(s =~= spec_sel_zero_deposit_amount());
    }
    if d[0] == 0x08u8 && d[1] == 0xc3u8 && d[2] == 0x79u8 && d[3] == 0xa0u8 {
        assert(s =~= spec_sel_revert_string());
    }
    if d.len() == 4 {
        assert(d =~= s);
    }
}

impl DepositorErrors {
    /// Decodes revert data by selector; rejects anything of the wrong shape.
    pub fn decode(data: &[u8]) -> (r: Result<DepositorErrors, AbiError>)
        ensures
            r is Ok <==> spec_errors_wf(data@),
            r matches Ok(e) ==> spec_error_matches(data@, e),
    {
        let n = data.len();
        if n < 4 {
            return Err(AbiError::InvalidData);
        }
        let s0 = data[0];
        let s1 = data[1];
        let s2 = data[2];
        let s3 = data[3];
        proof {
            lemma_error_selectors(data@);
        }
        if s0 == 0x74 && s1 == 0x46 && s2 == 0x74 && s3 == 0xae {
            if n == 36 {
                let h = read32(data, 4);
                Ok(DepositorErrors::DepositAlreadyExists(DepositAlreadyExists { secret_hash: h }))
            } else {
                Err(AbiError::InvalidData)
            }
        } else if s0 == 0xa9 && s1 == 0xd2 && s2 == 0x1a && s3 == 0x9d {
            if n == 36 {
                let h = read32(data, 4);
                Ok(
                    DepositorErrors::DepositAlreadyWithdrawn(
                        DepositAlreadyWithdrawn { secret_hash: h },
                    ),
                )
            } else {
                Err(AbiError::InvalidData)
            }
        } else if s0 == 0x22 && s1 == 0xb6 && s2 == 0xcc && s3 == 0x9d {
            if n == 36 {
                let h = read32(data, 4);
                Ok(DepositorErrors::DepositDoesNotExist(DepositDoesNotExist { secret_hash: h }))
            } else {
                Err(AbiError::InvalidData)
            }
        } else if s0 == 0x14 && s1 == 0x25 && s2 == 0xea && s3 == 0x42 {
            if n == 4 {
                Ok(DepositorErrors::FailedInnerCall(FailedInnerCall))
            } else {
                Err(AbiError::InvalidData)
            }
        } else if s0 == 0x7c && s1 == 0x71 && s2 == 0x11 && s3 == 0x59 {
            if n == 68 {
                let a = read_u256(data, 4);
                let b = read_u256(data, 36);
                Ok(
                    DepositorErrors::LockTimeTooShort(
                        LockTimeTooShort { provided_lock_time: a, minimum_lock_time: b },
                    ),
                )
            } else {
                Err(AbiError::InvalidData)
            }
        } else if s0 == 0x66 && s1 == 0xdb && s2 == 0x93 && s3 == 0x1a {
            if n == 68 {
                let a = read_u256(data, 4);
                let b = read_u256(data, 36);
                Ok(
                    DepositorErrors::TimeLockNotExpired(
                        TimeLockNotExpired { current_time: a, lock_time: b },
                    ),
                )
            } else {
                Err(AbiError::InvalidData)
            }
        } else if s0 == 0x85 && s1 == 0x79 && s2 == 0xbe && s3 == 0xfe {
            if n == 4 {
                Ok(DepositorErrors::ZeroAddressNotAllowed(ZeroAddressNotAllowed))
            } else {
                Err(AbiError::InvalidData)
            }
        } else if s0 == 0x07 && s1 == 0x8e && s2 == 0x1d && s3 == 0x85 {
            if n == 4 {
                Ok(DepositorErrors::ZeroDepositAmount(ZeroDepositAmount))
            } else {
                Err(AbiError::InvalidData)
            }
        } else if s0 == 0x08 && s1 == 0xc3 && s2 == 0x79 && s3 == 0xa0 {
            Self::decode_revert_string(data)
        } else {
            Err(AbiError::InvalidData)
        }
    }

    /// Decodes the tail of a canonical `Error(string)` revert.
    fn decode_revert_string(data: &[u8]) -> (r: Result<DepositorErrors, AbiError>)
        requires
            data@.len() >= 4,
            data@.subrange(0, 4) == spec_sel_revert_string(),
        ensures
            r is Ok <==> spec_revert_string_wf(data@),
            r matches Ok(e) ==> spec_error_matches(data@, e),
            r is Ok ==> r->Ok_0 is RevertString,
    {
        let n = data.len();
        if n < 68 {
            return Err(AbiError::InvalidData);
        }
        let off = read_u256(data, 4);
        if !off.eq_value(&U256::from_u64(32)) {
            return Err(AbiError::InvalidData);
        }
        let lw = read_u256(data, 36);
        let ghost l = bytes_be_value(data@.subrange(36, 68));
        if lw.limbs[1] != 0 || lw.limbs[2] != 0 || lw.limbs[3] != 0 {
            proof {
                assert(l >= 0x1_0000_0000_0000_0000 ==> n < 68 + l + spec_abi_pad_len(l));
            }
            return Err(AbiError::InvalidData);
        }
        let l0 = lw.limbs[0];
        proof {
            assert(lw@ == l0);
        }
        if l0 > (n as u64) {
            return Err(AbiError::InvalidData);
        }
        let l_us = l0 as usize;
        let pad = (32 - l_us % 32) % 32;
        if l_us > n - 68 || n - 68 - l_us != pad {
            return Err(AbiError::InvalidData);
        }
        let bytes = subrange_for_string(data, 68, 68 + l_us);
        match utf8_to_string(bytes) {
            Some(s) => Ok(DepositorErrors::RevertString(s)),
            None => Err(AbiError::InvalidData),
        }
    }
}

} // verus!

verus! {

/// The `Deposited(address,address,uint256,uint256,bytes32)` event: sender and
/// recipient are indexed topics, the rest is data.
#[derive(Clone, Copy, Debug, PartialEq, Eq)]
pub struct DepositedFilter {
    pub sender: EvmAddress,
    pub recipient: EvmAddress,
    pub amount: U256,
    pub lock_time: U256,
    pub secret_hash: [u8; 32],
}

/// The `Restored(address,uint256,bytes32)` event.
#[derive(Clone, Copy, Debug, PartialEq, Eq)]
pub struct RestoredFilter {
    pub sender: EvmAddress,
    pub amount: U256,
    pub secret_hash: [u8; 32],
}

/// The `Withdrawn(address,uint256,uint256,bytes32)` event: the plaintext swap
/// secret rides in `secret`.
#[derive(Clone, Copy, Debug, PartialEq, Eq)]
pub struct WithdrawnFilter {
    pub recipient: EvmAddress,
    pub amount: U256,
    pub secret: U256,
    pub secret_hash: [u8; 32],
}

/// All events of the contract.
#[derive(Clone, Copy, Debug, PartialEq, Eq)]
pub enum DepositorEvents {
    DepositedFilter(DepositedFilter),
    RestoredFilter(RestoredFilter),
    WithdrawnFilter(WithdrawnFilter),
}

pub open spec fn spec_deposited_log_wf(l: RawLog) -> bool {
    l.topics@.len() == 3 && l.topics@[0]@ == spec_deposited_topic() && l.data@.len() == 96
}

pub open spec fn spec_restored_log_wf(l: RawLog) -> bool {
    l.topics@.len() == 2 && l.topics@[0]@ == spec_restored_topic() && l.data@.len() == 64
}

pub open spec fn spec_withdrawn_log_wf(l: RawLog) -> bool {
    l.topics@.len() == 2 && l.topics@[0]@ == spec_withdrawn_topic() && l.data@.len() == 96
}

/// How a decoded event relates to the log entry. Address topics carry the
/// account in their low twenty bytes.
pub open spec fn spec_event_matches(l: RawLog, e: DepositorEvents) -> bool {
    match e {
        DepositorEvents::DepositedFilter(x) => spec_deposited_log_wf(l) && x.sender.bytes@
            == l.topics@[1]@.subrange(12, 32) && x.recipient.bytes@ == l.topics@[2]@.subrange(
            12,
            32,
        ) && x.amount@ == bytes_be_value(l.data@.subrange(0, 32)) && x.lock_time@ == bytes_be_value(
            l.data@.subrange(32, 64),
        ) && x.secret_hash@ == l.data@.subrange(64, 96),
        DepositorEvents::RestoredFilter(x) => spec_restored_log_wf(l) && x.sender.bytes@
            == l.topics@[1]@.subrange(12, 32) && x.amount@ == bytes_be_value(
            l.data@.subrange(0, 32),
        ) && x.secret_hash@ == l.data@.subrange(32, 64),
        DepositorEvents::WithdrawnFilter(x) => spec_withdrawn_log_wf(l) && x.recipient.bytes@
            == l.topics@[1]@.subrange(12, 32) && x.amount@ == bytes_be_value(
            l.data@.subrange(0, 32),
        ) && x.secret@ == bytes_be_value(l.data@.subrange(32, 64)) && x.secret_hash@
            == l.data@.subrange(64, 96),
    }
}

/// Bytewise equality of two 32-byte words.
pub fn bytes32_eq(a: &[u8; 32], b: &[u8; 32]) -> (r: bool)
    ensures
        r == (a@ == b@),
{
    let mut i: usize = 0;
    while i < 32
        invariant
            i <= 32,
            forall|j: int| 0 <= j < i ==> a@[j] == b@[j],
        decreases 32 - i,
    {
        if a[i] != b[i] {
            proof {
                if a@ =~= b@ {
                    assert(false);
                }
            }
            return false;
        }
        i = i + 1;
    }
    proof {
        assert(a@ =~= b@);
    }
    true
}

/// Reads the address in the low twenty bytes of a topic word.
fn topic_address(t: &[u8; 32]) -> (r: EvmAddress)
    ensures
        r.bytes@ == t@.subrange(12, 32),
{
    let mut b: [u8; 20] = [0; 20];
    let mut i: usize = 0;
    while i < 20
        invariant
            i <= 20,
            b@.len() == 20,
            forall|j: int| 0 <= j < i ==> b@[j] == t@[12 + j],
        decreases 20 - i,
    {
        b[i] = t[12 + i];
        i = i + 1;
    }
    proof {
        assert(b@ =~= t@.subrange(12, 32));
    }
    EvmAddress { bytes: b }
}

impl DepositorEvents {
    /// Decodes a log entry by its topic-0 signature hash.
    pub fn decode_log(log: &RawLog) -> (r: Result<DepositorEvents, AbiError>)
        ensures
            r is Ok <==> (spec_deposited_log_wf(*log) || spec_restored_log_wf(*log)
                || spec_withdrawn_log_wf(*log)),
            r matches Ok(e) ==> spec_event_matches(*log, e),
    {
        if log.topics.len() == 0 {
            return Err(AbiError::InvalidData);
        }
        let t0 = &log.topics[0];
        if bytes32_eq(t0, &deposited_topic()) {
            if log.topics.len() == 3 && log.data.len() == 96 {
                let sender = topic_address(&log.topics[1]);
                let recipient = topic_address(&log.topics[2]);
                let amount = read_u256(log.data.as_slice(), 0);
                let lock_time = read_u256(log.data.as_slice(), 32);
                let secret_hash = read32(log.data.as_slice(), 64);
                Ok(
                    DepositorEvents::DepositedFilter(
                        DepositedFilter { sender, recipient, amount, lock_time, secret_hash },
                    ),
                )
            } else {
                Err(AbiError::InvalidData)
            }
        } else if bytes32_eq(t0, &restored_topic()) {
            if log.topics.len() == 2 && log.data.len() == 64 {
                let sender = topic_address(&log.topics[1]);
                let amount = read_u256(log.data.as_slice(), 0);
                let secret_hash = read32(log.data.as_slice(), 32);
                Ok(DepositorEvents::RestoredFilter(RestoredFilter { sender, amount, secret_hash }))
            } else {
                Err(AbiError::InvalidData)
            }
        } else if bytes32_eq(t0, &withdrawn_topic()) {
            if log.topics.len() == 2 && log.data.len() == 96 {
                let recipient = topic_address(&log.topics[1]);
                let amount = read_u256(log.data.as_slice(), 0);
                let secret = read_u256(log.data.as_slice(), 32);
                let secret_hash = read32(log.data.as_slice(), 64);
                Ok(
                    DepositorEvents::WithdrawnFilter(
                        WithdrawnFilter { recipient, amount, secret, secret_hash },
                    ),
                )
            } else {
                Err(AbiError::InvalidData)
            }
        } else {
            Err(AbiError::InvalidData)
        }
    }
}

/// Return data of `MIN_LOCK_TIME()`.
#[derive(Clone, Copy, Debug, PartialEq, Eq)]
pub struct MinLockTimeReturn(pub U256);

impl MinLockTimeReturn {
    /// Decodes the single uint256 word the view call returns.
    pub fn decode(data: &[u8]) -> (r: Result<MinLockTimeReturn, AbiError>)
        ensures
            r is Ok <==> data@.len() == 32,
            r matches Ok(v) ==> v.0@ == bytes_be_value(data@),
    {
        if data.len() != 32 {
            return Err(AbiError::InvalidData);
        }
        let v = read_u256(data, 0);
        proof {
            assert(data@.subrange(0, 32) =~= data@);
        }
        Ok(MinLockTimeReturn(v))
    }
}

/// Return data of `deposits(bytes32)`: one stored deposit record.
#[derive(Clone, Copy, Debug, PartialEq, Eq)]
pub struct DepositsReturn {
    pub sender: EvmAddress,
    pub recipient: EvmAddress,
    pub amount: U256,
    pub lock_time: U256,
    pub is_withdrawn: bool,
}

impl DepositsReturn {
    /// Decodes the five words the view call returns; the bool word must be
    /// canonical (zero or one).
    pub fn decode(data: &[u8]) -> (r: Result<DepositsReturn, AbiError>)
        ensures
            r is Ok <==> (data@.len() == 160 && bytes_be_value(data@.subrange(128, 160)) <= 1),
            r matches Ok(v) ==> v.sender.bytes@ == data@.subrange(12, 32) && v.recipient.bytes@
                == data@.subrange(44, 64) && v.amount@ == bytes_be_value(data@.subrange(64, 96))
                && v.lock_time@ == bytes_be_value(data@.subrange(96, 128)) && v.is_withdrawn == (
            bytes_be_value(data@.subrange(128, 160)) == 1),
    {
        if data.len() != 160 {
            return Err(AbiError::InvalidData);
        }
        let sender = read_address(data, 0);
        let recipient = read_address(data, 32);
        let amount = read_u256(data, 64);
        let lock_time = read_u256(data, 96);
        let b = read_u256(data, 128);
        let is_withdrawn = if b.eq_value(&U256::from_u64(1)) {
            true
        } else if b.is_zero() {
            false
        } else {
            return Err(AbiError::InvalidData);
        };
        Ok(DepositsReturn { sender, recipient, amount, lock_time, is_withdrawn })
    }
}

} // verus!
