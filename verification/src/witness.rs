use vstd::prelude::*;

verus! {

use vstd::string::StringSliceAdditionalSpecFns;
use crate::u256::U256;
use crate::groth16::spec_le_bytes;

/// FNV-1a 64-bit over a byte string: fold of XOR-then-multiply, starting from
/// the offset basis.
pub open spec fn fnv1a64(s: Seq<u8>) -> u64
    decreases s.len(),
{
    if s.len() == 0 {
        0xcbf29ce484222325u64
    } else {
        ((((fnv1a64(s.drop_last()) ^ (s.last() as u64)) as nat) * 0x100000001b3)
            % 0x1_0000_0000_0000_0000) as u64
    }
}

/// Hashes a signal name, split as the (msb, lsb) halves the circuit expects.
pub fn fnv(inp: &str) -> (r: (u32, u32))
    ensures
        r.0 == fnv1a64(inp.spec_bytes()) / 0x1_0000_0000,
        r.1 == fnv1a64(inp.spec_bytes()) % 0x1_0000_0000,
{
    let bs = inp.as_bytes();
    let n = bs.len();
    let mut h: u64 = 0xcbf29ce484222325;
    proof {
        assert(bs@.take(0) =~= Seq::<u8>::empty());
    }
    for i in 0..n
        invariant
            n == bs@.len(),
            bs@ == inp.spec_bytes(),
            h == fnv1a64(bs@.take(i as int)),
    {
        proof {
            assert(bs@.take(i + 1).drop_last() =~= bs@.take(i as int));
        }
        let x = h ^ (bs[i] as u64);
        let h2 = x.wrapping_mul(0x100000001b3);
        proof {
            assert(h2 == (((x as nat) * 0x100000001b3) % 0x1_0000_0000_0000_0000) as u64);
        }
        h = h2;
    }
    proof {
        assert(bs@.take(n as int) =~= bs@);
    }
    let msb: u32 = (h >> 32) as u32;
    let lsb: u32 = h as u32;
    proof {
        assert(((h >> 32) as u32) == h / 0x1_0000_0000 && (h as u32) == h % 0x1_0000_0000)
            by (bit_vector);
    }
    (msb, lsb)
}

/// Big-endian base-2^32 value of a word sequence.
pub open spec fn words32_be_value(s: Seq<u32>) -> nat
    decreases s.len(),
{
    if s.len() == 0 {
        0
    } else {
        words32_be_value(s.drop_last()) * 0x1_0000_0000 + (s.last() as nat)
    }
}

/// Writes the big-endian base-2^32 digits of `n` into `size` words, most
/// significant first; the value occupies the last eight.
pub fn to_array32(n: &U256, size: usize) -> (r: Vec<u32>)
    requires
        size >= 8,
    ensures
        r@.len() == size,
        words32_be_value(r@) == n@,
{
    let mut v: Vec<u32> = Vec::new();
    let lead = size - 8;
    let mut i: usize = 0;
    while i < lead
        invariant
            i <= lead,
            v@.len() == i,
            words32_be_value(v@) == 0,
        decreases lead - i,
    {
        let ghost s0 = v@;
        v.push(0);
        proof {
            assert(v@.drop_last() =~= s0);
        }
        i = i + 1;
    }
    let mut j: usize = 4;
    while j > 0
        invariant
            v@.len() == lead + 2 * (4 - j),
            j <= 4,
            words32_be_value(v@) == high_limbs_value(n.limbs@, j as int),
        decreases j,
    {
        j = j - 1;
        let l = n.limbs[j];
        let hi: u32 = (l >> 32) as u32;
        let lo: u32 = l as u32;
        proof {
            assert(l == ((l >> 32) as u32) * 0x1_0000_0000 + (l as u32)) by (bit_vector);
        }
        let ghost s0 = v@;
        v.push(hi);
        proof {
            assert(v@.drop_last() =~= s0);
            assert(words32_be_value(v@) == words32_be_value(s0) * 0x1_0000_0000 + hi);
        }
        let ghost s1 = v@;
        v.push(lo);
        proof {
            assert(v@.drop_last() =~= s1);
            assert(words32_be_value(v@) == words32_be_value(s1) * 0x1_0000_0000 + lo);
            lemma_high_limbs_step(n.limbs@, j as int);
        }
    }
    proof {
        lemma_high_limbs_zero_is_value(n.limbs@);
        assert(words32_be_value(v@) == n@);
    }
    v
}

/// The value of limbs `j..4`, little-endian base 2^64.
pub open spec fn high_limbs_value(l: Seq<u64>, j: int) -> nat
    recommends
        l.len() == 4,
        0 <= j <= 4,
    decreases 4 - j,
{
    if j < 0 || j >= 4 {
        0
    } else {
        (l[j] as nat) + 0x1_0000_0000_0000_0000 * high_limbs_value(l, j + 1)
    }
}

proof fn lemma_high_limbs_step(l: Seq<u64>, j: int)
    requires
        0 <= j < 4,
        l.len() == 4,
    ensures
        high_limbs_value(l, j) == high_limbs_value(l, j + 1) * 0x1_0000_0000_0000_0000 + l[j],
{
}

proof fn lemma_high_limbs_zero_is_value(l: Seq<u64>)
    requires
        l.len() == 4,
    ensures
        high_limbs_value(l, 0) == crate::u256::limbs4_value(l),
{
    assert(high_limbs_value(l, 4) == 0);
    assert(high_limbs_value(l, 3) == (l[3] as nat) + 0x1_0000_0000_0000_0000 * high_limbs_value(
        l,
        4,
    ));
    assert(high_limbs_value(l, 2) == (l[2] as nat) + 0x1_0000_0000_0000_0000 * high_limbs_value(
        l,
        3,
    ));
    assert(high_limbs_value(l, 1) == (l[1] as nat) + 0x1_0000_0000_0000_0000 * high_limbs_value(
        l,
        2,
    ));
    assert(high_limbs_value(l, 0) == (l[0] as nat) + 0x1_0000_0000_0000_0000 * high_limbs_value(
        l,
        1,
    ));
}

} // verus!

verus! {

use crate::groth16::push_le_u64;

/// Appends the four little-endian bytes of a word.
pub(crate) fn push_le_u32(v: &mut Vec<u8>, l: u32)
    ensures
        final(v)@ == old(v)@ + spec_le_bytes(l as nat, 4),
{
    let b0: u8 = (l % 256) as u8;
    let l1: u32 = l / 256;
    let b1: u8 = (l1 % 256) as u8;
    let l2: u32 = l1 / 256;
    let b2: u8 = (l2 % 256) as u8;
    let l3: u32 = l2 / 256;
    let b3: u8 = (l3 % 256) as u8;
    proof {
        assert(spec_le_bytes(l as nat, 4) == seq![b0] + spec_le_bytes(l1 as nat, 3));
        assert(spec_le_bytes(l1 as nat, 3) == seq![b1] + spec_le_bytes(l2 as nat, 2));
        assert(spec_le_bytes(l2 as nat, 2) == seq![b2] + spec_le_bytes(l3 as nat, 1));
        assert(spec_le_bytes(l3 as nat, 1) == seq![b3] + spec_le_bytes((l3 as nat) / 256, 0));
        assert(spec_le_bytes(l as nat, 4) =~= seq![b0, b1, b2, b3]);
    }
    v.push(b0);
    v.push(b1);
    v.push(b2);
    v.push(b3);
    proof {
        assert(v@ =~= old(v)@ + spec_le_bytes(l as nat, 4));
    }
}

/// The little-endian bytes of a word sequence, in order.
pub open spec fn spec_words_le(s: Seq<u32>) -> Seq<u8>
    decreases s.len(),
{
    if s.len() == 0 {
        Seq::empty()
    } else {
        spec_words_le(s.drop_last()) + spec_le_bytes(s.last() as nat, 4)
    }
}

/// The canonical `wtns` container: magic, version 2, two sections; section 1
/// holds the field size, the prime and the witness count, section 2 the
/// witness values, all little-endian.
pub open spec fn spec_wtns_bytes(n32: u32, prime: Seq<u32>, wsz: u32, words: Seq<u32>) -> Seq<u8> {
    let n8 = 4 * (n32 as nat);
    seq![0x77u8, 0x74u8, 0x6eu8, 0x73u8] + spec_le_bytes(2, 4) + spec_le_bytes(2, 4)
        + spec_le_bytes(1, 4) + spec_le_bytes(n8 + 8, 8) + spec_le_bytes(n8, 4) + spec_words_le(
        prime,
    ) + spec_le_bytes(wsz as nat, 4) + spec_le_bytes(2, 4) + spec_le_bytes(
        n8 * (wsz as nat),
        8,
    ) + spec_words_le(words)
}

/// Appends every word, little-endian.
fn push_words_le(v: &mut Vec<u8>, words: &Vec<u32>)
    ensures
        final(v)@ == old(v)@ + spec_words_le(words@),
{
    let n = words.len();
    for i in 0..n
        invariant
            n == words@.len(),
            v@ == old(v)@ + spec_words_le(words@.take(i as int)),
    {
        proof {
            assert(words@.take(i + 1).drop_last() =~= words@.take(i as int));
        }
        push_le_u32(v, words[i]);
    }
    proof {
        assert(words@.take(n as int) =~= words@);
    }
}

/// Serializes a computed witness in the canonical `wtns` binary format.
pub fn build_wtns(n32: u32, prime_words: &Vec<u32>, witness_size: u32, witness_words: &Vec<u32>) -> (r:
    Vec<u8>)
    requires
        n32 <= 0x3fff_ffff,
        prime_words@.len() == n32,
        witness_words@.len() == (n32 as nat) * (witness_size as nat),
    ensures
        r@ == spec_wtns_bytes(n32, prime_words@, witness_size, witness_words@),
{
    let mut v: Vec<u8> = Vec::new();
    v.push(0x77);
    v.push(0x74);
    v.push(0x6e);
    v.push(0x73);
    proof {
        assert(v@ =~= seq![0x77u8, 0x74u8, 0x6eu8, 0x73u8]);
    }
    push_le_u32(&mut v, 2);
    push_le_u32(&mut v, 2);
    push_le_u32(&mut v, 1);
    let n8: u32 = n32 * 4;
    push_le_u64(&mut v, (n8 as u64) + 8);
    push_le_u32(&mut v, n8);
    push_words_le(&mut v, prime_words);
    push_le_u32(&mut v, witness_size);
    push_le_u32(&mut v, 2);
    proof {
        assert((n8 as nat) * (witness_size as nat)
            < 0x1_0000_0000_0000_0000) by (nonlinear_arith)
            requires
                n8 <= 0xffff_ffffu32,
                witness_size <= 0xffff_ffffu32,
        ;
    }
    let sec2_len: u64 = ((n8 as u128) * (witness_size as u128)) as u64;
    push_le_u64(&mut v, sec2_len);
    push_words_le(&mut v, witness_words);
    proof {
        assert(4 * (n32 as nat) == n8 as nat);
        assert(v@ =~= spec_wtns_bytes(n32, prime_words@, witness_size, witness_words@));
    }
    v
}

} // verus!
