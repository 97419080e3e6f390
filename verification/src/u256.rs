use vstd::prelude::*;

verus! {

use vstd::arithmetic::div_mod::{
    lemma_fundamental_div_mod,
    lemma_fundamental_div_mod_converse,
    lemma_div_denominator,
    lemma_mod_bound,
};

/// Value of a little-endian base-2^64 limb sequence.
pub open spec fn limbs_value(s: Seq<u64>) -> nat
    decreases s.len(),
{
    if s.len() == 0 {
        0
    } else {
        (s[0] as nat) + 0x1_0000_0000_0000_0000 * limbs_value(s.drop_first())
    }
}

/// Closed form of `limbs_value` for exactly four limbs.
pub open spec fn limbs4_value(s: Seq<u64>) -> nat
    recommends
        s.len() == 4,
{
    (s[0] as nat) + (s[1] as nat) * 0x1_0000_0000_0000_0000 + (s[2] as nat)
        * 0x1_0000_0000_0000_0000_0000_0000_0000_0000nat + (s[3] as nat)
        * 0x1_0000_0000_0000_0000_0000_0000_0000_0000_0000_0000_0000_0000nat
}

pub proof fn lemma_limbs4_value(s: Seq<u64>)
    requires
        s.len() == 4,
    ensures
        limbs_value(s) == limbs4_value(s),
{
    let s1 = s.drop_first();
    let s2 = s1.drop_first();
    let s3 = s2.drop_first();
    assert(s1[0] == s[1] && s1[1] == s[2] && s1[2] == s[3]);
    assert(s2[0] == s[2] && s2[1] == s[3]);
    assert(s3[0] == s[3]);
    assert(limbs_value(s) == (s[0] as nat) + 0x1_0000_0000_0000_0000 * limbs_value(s1));
    assert(limbs_value(s1) == (s[1] as nat) + 0x1_0000_0000_0000_0000 * limbs_value(s2));
    assert(limbs_value(s2) == (s[2] as nat) + 0x1_0000_0000_0000_0000 * limbs_value(s3));
    assert(limbs_value(s3) == (s[3] as nat) + 0x1_0000_0000_0000_0000 * limbs_value(
        s3.drop_first(),
    ));
    assert(s3.drop_first().len() == 0);
    assert(limbs_value(s3.drop_first()) == 0);
}

/// Big-endian base-256 value of a byte sequence.
pub open spec fn bytes_be_value(s: Seq<u8>) -> nat
    decreases s.len(),
{
    if s.len() == 0 {
        0
    } else {
        bytes_be_value(s.drop_last()) * 256 + (s.last() as nat)
    }
}

/// A 256-bit unsigned integer held as four little-endian base-2^64 limbs;
/// index 0 is least significant.
#[derive(Clone, Copy, Debug, PartialEq, Eq)]
pub struct U256 {
    pub limbs: [u64; 4],
}

impl View for U256 {
    type V = nat;

    open spec fn view(&self) -> nat {
        limbs4_value(self.limbs@)
    }
}

impl DeepView for U256 {
    type V = nat;

    open spec fn deep_view(&self) -> nat {
        self.view()
    }
}

/// Two four-limb sequences with equal numeric value are equal.
pub proof fn lemma_limbs4_injective(a: Seq<u64>, b: Seq<u64>)
    requires
        a.len() == 4,
        b.len() == 4,
        limbs4_value(a) == limbs4_value(b),
    ensures
        a =~= b,
{
    let base = 0x1_0000_0000_0000_0000int;
    let v = limbs4_value(a) as int;
    let qa1 = (a[1] as int) + (a[2] as int) * base + (a[3] as int)
        * 0x1_0000_0000_0000_0000_0000_0000_0000_0000int;
    let qb1 = (b[1] as int) + (b[2] as int) * base + (b[3] as int)
        * 0x1_0000_0000_0000_0000_0000_0000_0000_0000int;
    lemma_fundamental_div_mod_converse(v, base, qa1, a[0] as int);
    lemma_fundamental_div_mod_converse(v, base, qb1, b[0] as int);
    assert(a[0] == b[0] && qa1 == qb1);
    let qa2 = (a[2] as int) + (a[3] as int) * base;
    let qb2 = (b[2] as int) + (b[3] as int) * base;
    lemma_fundamental_div_mod_converse(qa1, base, qa2, a[1] as int);
    lemma_fundamental_div_mod_converse(qb1, base, qb2, b[1] as int);
    assert(a[1] == b[1] && qa2 == qb2);
    lemma_fundamental_div_mod_converse(qa2, base, a[3] as int, a[2] as int);
    lemma_fundamental_div_mod_converse(qb2, base, b[3] as int, b[2] as int);
    assert(a[2] == b[2] && a[3] == b[3]);
}

/// One column of a grade-school multiply-by-small-base with carry:
/// `l * m + c == o + carry * 2^64`, and the carry stays below `m`.
fn muladd_step(l: u64, m: u64, c: u64) -> (r: (u64, u64))
    requires
        2 <= m,
        c < m,
    ensures
        (l as nat) * (m as nat) + c == r.0 + (r.1 as nat) * 0x1_0000_0000_0000_0000,
        r.1 < m,
{
    proof {
        assert((l as nat) * (m as nat) + (c as nat) < (m as nat) * 0x1_0000_0000_0000_0000)
            by (nonlinear_arith)
            requires
                l <= 0xffff_ffff_ffff_ffffu64,
                c < m,
                2 <= m,
        ;
    }
    let t: u128 = (l as u128) * (m as u128) + (c as u128);
    let o: u64 = t as u64;
    let cc: u64 = (t >> 64) as u64;
    proof {
        lemma_u128_split(t);
        assert((cc as nat) * 0x1_0000_0000_0000_0000 < (m as nat) * 0x1_0000_0000_0000_0000);
    }
    (o, cc)
}

proof fn lemma_u128_split(t: u128)
    ensures
        t == (t as u64) + ((t >> 64) as u64) * 0x1_0000_0000_0000_0000,
        (t as u64) < 0x1_0000_0000_0000_0000,
{
    assert(t == (t as u64) + ((t >> 64) as u64) * 0x1_0000_0000_0000_0000) by (bit_vector);
}

impl U256 {
    pub fn zero() -> (r: U256)
        ensures
            r@ == 0,
    {
        U256 { limbs: [0, 0, 0, 0] }
    }

    pub fn from_u64(x: u64) -> (r: U256)
        ensures
            r@ == x,
    {
        U256 { limbs: [x, 0, 0, 0] }
    }

    pub fn from_u128(x: u128) -> (r: U256)
        ensures
            r@ == x,
    {
        let lo: u64 = x as u64;
        let hi: u64 = (x >> 64) as u64;
        proof {
            lemma_u128_split(x);
        }
        U256 { limbs: [lo, hi, 0, 0] }
    }

    /// Numeric equality of two values.
    pub fn eq_value(&self, other: &U256) -> (r: bool)
        ensures
            r == (self@ == other@),
    {
        let r = self.limbs[0] == other.limbs[0] && self.limbs[1] == other.limbs[1]
            && self.limbs[2] == other.limbs[2] && self.limbs[3] == other.limbs[3];
        proof {
            if r {
                assert(self.limbs@ =~= other.limbs@);
            } else if self@ == other@ {
                lemma_limbs4_injective(self.limbs@, other.limbs@);
            }
        }
        r
    }

    /// Strict numeric order, decided from the most significant limb down.
    pub fn lt(&self, other: &U256) -> (r: bool)
        ensures
            r == (self@ < other@),
    {
        let a = &self.limbs;
        let b = &other.limbs;
        let r = if a[3] != b[3] {
            a[3] < b[3]
        } else if a[2] != b[2] {
            a[2] < b[2]
        } else if a[1] != b[1] {
            a[1] < b[1]
        } else {
            a[0] < b[0]
        };
        proof {
            lemma_lt_characterization(self.limbs@, other.limbs@);
        }
        r
    }

    pub fn is_zero(&self) -> (r: bool)
        ensures
            r == (self@ == 0),
    {
        self.limbs[0] == 0 && self.limbs[1] == 0 && self.limbs[2] == 0 && self.limbs[3] == 0
    }

    /// Multiplies by a small base and adds a digit below the base, reporting
    /// overflow past 2^256. This is the shared step of every radix conversion here.
    pub fn mul_small_add(&self, m: u64, a: u64) -> (r: Option<U256>)
        requires
            2 <= m,
            a < m,
        ensures
            match r {
                Some(v) => v@ == self@ * m + a && self@ * m + a
                    < 0x1_0000_0000_0000_0000_0000_0000_0000_0000_0000_0000_0000_0000_0000_0000_0000_0000nat,
                None => self@ * m + a
                    >= 0x1_0000_0000_0000_0000_0000_0000_0000_0000_0000_0000_0000_0000_0000_0000_0000_0000nat,
            },
    {
        let (o0, c0) = muladd_step(self.limbs[0], m, a);
        let (o1, c1) = muladd_step(self.limbs[1], m, c0);
        let (o2, c2) = muladd_step(self.limbs[2], m, c1);
        let (o3, c3) = muladd_step(self.limbs[3], m, c2);
        let v = U256 { limbs: [o0, o1, o2, o3] };
        proof {
            let l0 = self.limbs@[0] as nat;
            let l1 = self.limbs@[1] as nat;
            let l2 = self.limbs@[2] as nat;
            let l3 = self.limbs@[3] as nat;
            assert((o0 + (o1 as nat) * 0x1_0000_0000_0000_0000 + (o2 as nat)
                * 0x1_0000_0000_0000_0000_0000_0000_0000_0000nat + (o3 as nat)
                * 0x1_0000_0000_0000_0000_0000_0000_0000_0000_0000_0000_0000_0000nat) + (c3 as nat)
                * 0x1_0000_0000_0000_0000_0000_0000_0000_0000_0000_0000_0000_0000_0000_0000_0000_0000nat
                == (l0 + l1 * 0x1_0000_0000_0000_0000 + l2
                * 0x1_0000_0000_0000_0000_0000_0000_0000_0000nat + l3
                * 0x1_0000_0000_0000_0000_0000_0000_0000_0000_0000_0000_0000_0000nat) * m + a)
                by (nonlinear_arith)
                requires
                    l0 * m + a == o0 + (c0 as nat) * 0x1_0000_0000_0000_0000,
                    l1 * m + c0 == o1 + (c1 as nat) * 0x1_0000_0000_0000_0000,
                    l2 * m + c1 == o2 + (c2 as nat) * 0x1_0000_0000_0000_0000,
                    l3 * m + c2 == o3 + (c3 as nat) * 0x1_0000_0000_0000_0000,
            ;
            assert(v@ == o0 + (o1 as nat) * 0x1_0000_0000_0000_0000 + (o2 as nat)
                * 0x1_0000_0000_0000_0000_0000_0000_0000_0000nat + (o3 as nat)
                * 0x1_0000_0000_0000_0000_0000_0000_0000_0000_0000_0000_0000_0000nat);
            assert(self@ == l0 + l1 * 0x1_0000_0000_0000_0000 + l2
                * 0x1_0000_0000_0000_0000_0000_0000_0000_0000nat + l3
                * 0x1_0000_0000_0000_0000_0000_0000_0000_0000_0000_0000_0000_0000nat);
        }
        if c3 != 0 {
            None
        } else {
            Some(v)
        }
    }
}

proof fn lemma_lt_characterization(a: Seq<u64>, b: Seq<u64>)
    requires
        a.len() == 4,
        b.len() == 4,
    ensures
        (limbs4_value(a) < limbs4_value(b)) == if a[3] != b[3] {
            a[3] < b[3]
        } else if a[2] != b[2] {
            a[2] < b[2]
        } else if a[1] != b[1] {
            a[1] < b[1]
        } else {
            a[0] < b[0]
        },
{
    if limbs4_value(a) == limbs4_value(b) {
        lemma_limbs4_injective(a, b);
    }
}

/// Writes the little-endian base-2^64 digits of `n`; index 0 is least significant.
pub fn u256_to_u64array(n: &U256) -> (r: [u64; 4])
    ensures
        limbs_value(r@) == n@,
        r@ =~= n.limbs@,
{
    proof {
        lemma_limbs4_value(n.limbs@);
    }
    n.limbs
}

/// Computes the value of four little-endian base-2^64 digits.
pub fn u64array_to_u256(input: [u64; 4]) -> (r: U256)
    ensures
        r@ == limbs_value(input@),
{
    proof {
        lemma_limbs4_value(input@);
    }
    U256 { limbs: input }
}

/// The little-endian base-2^64 digits of a value below 2^256.
pub open spec fn spec_to_limbs(n: nat) -> Seq<u64> {
    seq![
        (n % 0x1_0000_0000_0000_0000nat) as u64,
        ((n / 0x1_0000_0000_0000_0000nat) % 0x1_0000_0000_0000_0000nat) as u64,
        ((n / 0x1_0000_0000_0000_0000_0000_0000_0000_0000nat) % 0x1_0000_0000_0000_0000nat) as u64,
        ((n / 0x1_0000_0000_0000_0000_0000_0000_0000_0000_0000_0000_0000_0000nat)
            % 0x1_0000_0000_0000_0000nat) as u64,
    ]
}

/// Limb round trip: recomposing the base-2^64 digits of any `n` below 2^256
/// gives back `n`, and the digit sequence is the unique four-limb preimage.
pub proof fn lemma_limb_round_trip(n: nat)
    requires
        n < 0x1_0000_0000_0000_0000_0000_0000_0000_0000_0000_0000_0000_0000_0000_0000_0000_0000nat,
    ensures
        limbs_value(spec_to_limbs(n)) == n,
        forall|s: Seq<u64>| s.len() == 4 && limbs_value(s) == n ==> s =~= spec_to_limbs(n),
{
    let base = 0x1_0000_0000_0000_0000int;
    let v = n as int;
    lemma_fundamental_div_mod(v, base);
    lemma_mod_bound(v, base);
    let d0 = v % base;
    let q0 = v / base;
    lemma_fundamental_div_mod(q0, base);
    lemma_mod_bound(q0, base);
    let d1 = q0 % base;
    let q1 = q0 / base;
    lemma_fundamental_div_mod(q1, base);
    lemma_mod_bound(q1, base);
    let d2 = q1 % base;
    let q2 = q1 / base;
    lemma_fundamental_div_mod(q2, base);
    lemma_mod_bound(q2, base);
    let d3 = q2 % base;
    let q3 = q2 / base;
    lemma_div_denominator(v, base, base);
    assert(q1 == v / 0x1_0000_0000_0000_0000_0000_0000_0000_0000int);
    lemma_div_denominator(v, 0x1_0000_0000_0000_0000_0000_0000_0000_0000int, base);
    assert(q2 == v / 0x1_0000_0000_0000_0000_0000_0000_0000_0000_0000_0000_0000_0000int);
    assert(q3 == 0 && d3 == q2) by {
        if q3 >= 1 {
            assert(q2 >= base * 1);
        }
    }
    let s = spec_to_limbs(n);
    lemma_limbs4_value(s);
    assert(s[0] == d0 && s[1] == d1 && s[2] == d2 && s[3] == d3);
    assert(limbs4_value(s) == n);
    assert forall|t: Seq<u64>| t.len() == 4 && limbs_value(t) == n implies t =~= s by {
        lemma_limbs4_value(t);
        lemma_limbs4_injective(t, s);
    }
}

} // verus!

verus! {

use vstd::string::StringSliceAdditionalSpecFns;

/// Errors of the scalar codec: a string that is not plain decimal digits,
/// or a value that does not fit in 256 bits.
#[derive(Clone, Copy, Debug, PartialEq, Eq)]
pub enum CodecError {
    NotDecimal,
    Overflow,
}

pub open spec fn is_dec_digit(b: u8) -> bool {
    0x30 <= b <= 0x39
}

pub open spec fn dec_digits(s: Seq<u8>) -> bool {
    forall|i: int| 0 <= i < s.len() ==> is_dec_digit(#[trigger] s[i])
}

/// Value of a big-endian decimal digit string (as UTF-8 bytes).
pub open spec fn dec_value(s: Seq<u8>) -> nat
    decreases s.len(),
{
    if s.len() == 0 {
        0
    } else {
        dec_value(s.drop_last()) * 10 + ((s.last() - 0x30) as nat)
    }
}

proof fn lemma_dec_value_prefix(s: Seq<u8>, i: int)
    requires
        0 <= i <= s.len(),
        dec_digits(s),
    ensures
        dec_value(s.take(i)) <= dec_value(s),
    decreases s.len() - i,
{
    if i < s.len() {
        lemma_dec_value_prefix(s, i + 1);
        assert(s.take(i + 1).drop_last() =~= s.take(i));
        assert(dec_value(s.take(i + 1)) == dec_value(s.take(i)) * 10 + ((s[i] - 0x30) as nat));
    } else {
        assert(s.take(i) =~= s);
    }
}

impl U256 {
    /// Parses a decimal string into a 256-bit value.
    /// Accepts exactly the non-empty all-digit strings whose value is below 2^256.
    pub fn from_dec_str(s: &str) -> (r: Result<U256, CodecError>)
        ensures
            r is Ok <==> s.spec_bytes().len() > 0 && dec_digits(s.spec_bytes()) && dec_value(
                s.spec_bytes(),
            )
                < 0x1_0000_0000_0000_0000_0000_0000_0000_0000_0000_0000_0000_0000_0000_0000_0000_0000nat,
            r is Ok ==> r->Ok_0@ == dec_value(s.spec_bytes()),
            r == Err::<U256, CodecError>(CodecError::NotDecimal) <==> (s.spec_bytes().len() == 0
                || !dec_digits(s.spec_bytes())),
            r == Err::<U256, CodecError>(CodecError::Overflow) <==> (s.spec_bytes().len() > 0
                && dec_digits(s.spec_bytes()) && dec_value(s.spec_bytes())
                >= 0x1_0000_0000_0000_0000_0000_0000_0000_0000_0000_0000_0000_0000_0000_0000_0000_0000nat),
    {
        let bs = s.as_bytes();
        let n = bs.len();
        if n == 0 {
            return Err(CodecError::NotDecimal);
        }
        for i in 0..n
            invariant
                n == bs@.len(),
                bs@ == s.spec_bytes(),
                forall|j: int| 0 <= j < i ==> is_dec_digit(#[trigger] bs@[j]),
        {
            let b = bs[i];
            if b < 0x30 || b > 0x39 {
                return Err(CodecError::NotDecimal);
            }
        }
        let mut acc = U256::zero();
        proof {
            assert(bs@.take(0) =~= Seq::<u8>::empty());
        }
        for i in 0..n
            invariant
                n == bs@.len(),
                bs@ == s.spec_bytes(),
                dec_digits(bs@),
                acc@ == dec_value(bs@.take(i as int)),
        {
            let d: u64 = (bs[i] - 0x30) as u64;
            proof {
                assert(bs@.take(i + 1).drop_last() =~= bs@.take(i as int));
            }
            match acc.mul_small_add(10, d) {
                Some(v) => {
                    acc = v;
                },
                None => {
                    proof {
                        lemma_dec_value_prefix(bs@, i + 1);
                    }
                    return Err(CodecError::Overflow);
                },
            }
        }
        proof {
            assert(bs@.take(n as int) =~= bs@);
        }
        Ok(acc)
    }

    /// Parses a decimal string into a 64-bit value.
    pub fn parse_u64_dec(s: &str) -> (r: Result<u64, CodecError>)
        ensures
            r is Ok <==> s.spec_bytes().len() > 0 && dec_digits(s.spec_bytes()) && dec_value(
                s.spec_bytes(),
            ) < 0x1_0000_0000_0000_0000,
            r is Ok ==> r->Ok_0 == dec_value(s.spec_bytes()),
            r == Err::<u64, CodecError>(CodecError::NotDecimal) <==> (s.spec_bytes().len() == 0
                || !dec_digits(s.spec_bytes())),
            r == Err::<u64, CodecError>(CodecError::Overflow) <==> (s.spec_bytes().len() > 0
                && dec_digits(s.spec_bytes()) && dec_value(s.spec_bytes())
                >= 0x1_0000_0000_0000_0000),
    {
        match U256::from_dec_str(s) {
            Ok(v) => {
                if v.limbs[1] == 0 && v.limbs[2] == 0 && v.limbs[3] == 0 {
                    Ok(v.limbs[0])
                } else {
                    Err(CodecError::Overflow)
                }
            },
            Err(e) => Err(e),
        }
    }
}

} // verus!

verus! {

/// 256 raised to `n`: the number of byte strings of length `n`.
pub open spec fn pow_256(n: nat) -> nat
    decreases n,
{
    if n == 0 {
        1
    } else {
        256 * pow_256((n - 1) as nat)
    }
}

pub proof fn lemma_pow256_pos(n: nat)
    ensures
        pow_256(n) >= 1,
    decreases n,
{
    if n > 0 {
        lemma_pow256_pos((n - 1) as nat);
    }
}

pub proof fn lemma_pow256_mono(i: nat, j: nat)
    requires
        i <= j,
    ensures
        pow_256(i) <= pow_256(j),
    decreases j - i,
{
    if i < j {
        lemma_pow256_mono(i, (j - 1) as nat);
        lemma_pow256_pos((j - 1) as nat);
    }
}

pub proof fn lemma_bytes_be_value_bound(s: Seq<u8>)
    ensures
        bytes_be_value(s) < pow_256(s.len()),
    decreases s.len(),
{
    if s.len() > 0 {
        lemma_bytes_be_value_bound(s.drop_last());
    }
}

impl U256 {
    /// Reads a 32-byte big-endian integer.
    pub fn from_bytes_be(b: &[u8]) -> (r: U256)
        requires
            b@.len() == 32,
        ensures
            r@ == bytes_be_value(b@),
    {
        let mut acc = U256::zero();
        proof {
            assert(b@.take(0) =~= Seq::<u8>::empty());
        }
        for i in 0..32
            invariant
                b@.len() == 32,
                acc@ == bytes_be_value(b@.take(i as int)),
        {
            proof {
                lemma_bytes_be_value_bound(b@.take(i as int));
                lemma_pow256_mono(i as nat, 31);
                assert(pow_256(31) * 256 == pow_256(32));
                lemma_pow256_32();
                assert(b@.take(i + 1).drop_last() =~= b@.take(i as int));
            }
            let d: u64 = b[i] as u64;
            match acc.mul_small_add(256, d) {
                Some(v) => {
                    acc = v;
                },
                None => {
                    proof {
                        assert(false);
                    }
                },
            }
        }
        proof {
            assert(b@.take(32) =~= b@);
        }
        acc
    }

    /// Writes the value as 32 big-endian bytes.
    pub fn to_bytes_be(&self) -> (r: Vec<u8>)
        ensures
            r@.len() == 32,
            bytes_be_value(r@) == self@,
    {
        let mut v: Vec<u8> = Vec::new();
        push_be_u64(&mut v, self.limbs[3]);
        push_be_u64(&mut v, self.limbs[2]);
        push_be_u64(&mut v, self.limbs[1]);
        push_be_u64(&mut v, self.limbs[0]);
        v
    }

    /// Writes the value as 32 little-endian bytes.
    pub fn to_bytes_le(&self) -> (r: Vec<u8>)
        ensures
            r@.len() == 32,
            bytes_be_value(r@.reverse()) == self@,
    {
        let be = self.to_bytes_be();
        let mut v: Vec<u8> = Vec::new();
        for i in 0..32
            invariant
                be@.len() == 32,
                bytes_be_value(be@) == self@,
                v@.len() == i,
                forall|k: int| 0 <= k < i ==> v@[k] == be@[31 - k],
        {
            v.push(be[31 - i]);
        }
        proof {
            assert(v@.reverse() =~= be@);
        }
        v
    }
}

/// Appends the eight big-endian bytes of `l`.
fn push_be_u64(v: &mut Vec<u8>, l: u64)
    ensures
        final(v)@.len() == old(v)@.len() + 8,
        bytes_be_value(final(v)@) == bytes_be_value(old(v)@) * 0x1_0000_0000_0000_0000 + l,
{
    let b0: u8 = (l >> 56) as u8;
    let b1: u8 = (l >> 48) as u8;
    let b2: u8 = (l >> 40) as u8;
    let b3: u8 = (l >> 32) as u8;
    let b4: u8 = (l >> 24) as u8;
    let b5: u8 = (l >> 16) as u8;
    let b6: u8 = (l >> 8) as u8;
    let b7: u8 = l as u8;
    proof {
        assert(l == (((l >> 56) as u8) as u64) * 0x100_0000_0000_0000 + (((l >> 48) as u8) as u64)
            * 0x1_0000_0000_0000 + (((l >> 40) as u8) as u64) * 0x100_0000_0000 + (((l
            >> 32) as u8) as u64) * 0x1_0000_0000 + (((l >> 24) as u8) as u64) * 0x100_0000 + (((l
            >> 16) as u8) as u64) * 0x1_0000 + (((l >> 8) as u8) as u64) * 0x100 + ((
        l as u8) as u64)) by (bit_vector);
    }
    let ghost s0 = v@;
    v.push(b0);
    proof {
        assert(v@.drop_last() =~= s0);
        assert(bytes_be_value(v@) == bytes_be_value(s0) * 256 + b0);
    }
    let ghost s1 = v@;
    v.push(b1);
    proof {
        assert(v@.drop_last() =~= s1);
        assert(bytes_be_value(v@) == bytes_be_value(s1) * 256 + b1);
    }
    let ghost s2 = v@;
    v.push(b2);
    proof {
        assert(v@.drop_last() =~= s2);
        assert(bytes_be_value(v@) == bytes_be_value(s2) * 256 + b2);
    }
    let ghost s3 = v@;
    v.push(b3);
    proof {
        assert(v@.drop_last() =~= s3);
        assert(bytes_be_value(v@) == bytes_be_value(s3) * 256 + b3);
    }
    let ghost s4 = v@;
    v.push(b4);
    proof {
        assert(v@.drop_last() =~= s4);
        assert(bytes_be_value(v@) == bytes_be_value(s4) * 256 + b4);
    }
    let ghost s5 = v@;
    v.push(b5);
    proof {
        assert(v@.drop_last() =~= s5);
        assert(bytes_be_value(v@) == bytes_be_value(s5) * 256 + b5);
    }
    let ghost s6 = v@;
    v.push(b6);
    proof {
        assert(v@.drop_last() =~= s6);
        assert(bytes_be_value(v@) == bytes_be_value(s6) * 256 + b6);
    }
    let ghost s7 = v@;
    v.push(b7);
    proof {
        assert(v@.drop_last() =~= s7);
        assert(bytes_be_value(v@) == bytes_be_value(s7) * 256 + b7);
    }
}

} // verus!

verus! {
pub proof fn lemma_pow256_32()
    ensures
        pow_256(32)
            == 0x1_0000_0000_0000_0000_0000_0000_0000_0000_0000_0000_0000_0000_0000_0000_0000_0000nat,
{
    assert(pow_256(0) == 0x1nat);
    assert(pow_256(1) == 0x100nat);
    assert(pow_256(2) == 0x10000nat);
    assert(pow_256(3) == 0x1000000nat);
    assert(pow_256(4) == 0x100000000nat);
    assert(pow_256(5) == 0x10000000000nat);
    assert(pow_256(6) == 0x1000000000000nat);
    assert(pow_256(7) == 0x100000000000000nat);
    assert(pow_256(8) == 0x10000000000000000nat);
    assert(pow_256(9) == 0x1000000000000000000nat);
    assert(pow_256(10) == 0x100000000000000000000nat);
    assert(pow_256(11) == 0x10000000000000000000000nat);
    assert(pow_256(12) == 0x1000000000000000000000000nat);
    assert(pow_256(13) == 0x100000000000000000000000000nat);
    assert(pow_256(14) == 0x10000000000000000000000000000nat);
    assert(pow_256(15) == 0x1000000000000000000000000000000nat);
    assert(pow_256(16) == 0x100000000000000000000000000000000nat);
    assert(pow_256(17) == 0x10000000000000000000000000000000000nat);
    assert(pow_256(18) == 0x1000000000000000000000000000000000000nat);
    assert(pow_256(19) == 0x100000000000000000000000000000000000000nat);
    assert(pow_256(20) == 0x10000000000000000000000000000000000000000nat);
    assert(pow_256(21) == 0x1000000000000000000000000000000000000000000nat);
    assert(pow_256(22) == 0x100000000000000000000000000000000000000000000nat);
    assert(pow_256(23) == 0x10000000000000000000000000000000000000000000000nat);
    assert(pow_256(24) == 0x1000000000000000000000000000000000000000000000000nat);
    assert(pow_256(25) == 0x100000000000000000000000000000000000000000000000000nat);
    assert(pow_256(26) == 0x10000000000000000000000000000000000000000000000000000nat);
    assert(pow_256(27) == 0x1000000000000000000000000000000000000000000000000000000nat);
    assert(pow_256(28) == 0x100000000000000000000000000000000000000000000000000000000nat);
    assert(pow_256(29) == 0x10000000000000000000000000000000000000000000000000000000000nat);
    assert(pow_256(30) == 0x1000000000000000000000000000000000000000000000000000000000000nat);
    assert(pow_256(31) == 0x100000000000000000000000000000000000000000000000000000000000000nat);
    assert(pow_256(32) == 0x10000000000000000000000000000000000000000000000000000000000000000nat);
}

} // verus!

verus! {

use vstd::arithmetic::div_mod::lemma_mod_bound as lemma_mod_bound_bytes;

/// The canonical `len`-byte big-endian encoding of `n` (truncated to `len` bytes).
pub open spec fn spec_be_bytes(n: nat, len: nat) -> Seq<u8>
    decreases len,
{
    if len == 0 {
        Seq::empty()
    } else {
        spec_be_bytes(n / 256, (len - 1) as nat).push((n % 256) as u8)
    }
}

pub proof fn lemma_spec_be_bytes_value(n: nat, len: nat)
    requires
        n < pow_256(len),
    ensures
        spec_be_bytes(n, len).len() == len,
        bytes_be_value(spec_be_bytes(n, len)) == n,
    decreases len,
{
    if len > 0 {
        lemma_fundamental_div_mod(n as int, 256);
        lemma_mod_bound_bytes(n as int, 256);
        if n / 256 >= pow_256((len - 1) as nat) {
            assert(256 * (n / 256) >= 256 * pow_256((len - 1) as nat));
            assert(false);
        }
        lemma_spec_be_bytes_value(n / 256, (len - 1) as nat);
        let s = spec_be_bytes(n, len);
        assert(s.drop_last() =~= spec_be_bytes(n / 256, (len - 1) as nat));
        assert(bytes_be_value(s) == bytes_be_value(s.drop_last()) * 256 + (s.last() as nat));
    }
}

/// Byte strings of one length with one value are equal.
pub proof fn lemma_bytes_be_unique(a: Seq<u8>, b: Seq<u8>)
    requires
        a.len() == b.len(),
        bytes_be_value(a) == bytes_be_value(b),
    ensures
        a =~= b,
    decreases a.len(),
{
    if a.len() > 0 {
        let v = bytes_be_value(a) as int;
        lemma_fundamental_div_mod_converse(v, 256, bytes_be_value(a.drop_last()) as int, a.last() as int);
        lemma_fundamental_div_mod_converse(v, 256, bytes_be_value(b.drop_last()) as int, b.last() as int);
        lemma_bytes_be_unique(a.drop_last(), b.drop_last());
        assert(a =~= a.drop_last().push(a.last()));
        assert(b =~= b.drop_last().push(b.last()));
    }
}

impl U256 {
    /// Writes the value as its canonical 32 big-endian bytes.
    pub fn to_be_bytes32(&self) -> (r: Vec<u8>)
        ensures
            r@ == spec_be_bytes(self@, 32),
            r@.len() == 32,
            bytes_be_value(r@) == self@,
    {
        let r = self.to_bytes_be();
        proof {
            lemma_pow256_32();
            lemma_spec_be_bytes_value(self@, 32);
            lemma_bytes_be_unique(r@, spec_be_bytes(self@, 32));
        }
        r
    }
}

} // verus!
