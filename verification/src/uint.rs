//! 256-bit unsigned integers and 32-byte hashes, held as plain values.
//!
//! The arithmetic and the conversions to bytes and text are those of the
//! `primitive-types` crate, called through the trusted functions below.
use vstd::prelude::*;
use crate::text::{all_hex_digits, chars_of, hex_digits_value, hex_number};
use vstd::string::StringSliceAdditionalSpecFns;

verus! {

/// 2^64.
#[verifier::inline]
pub open spec fn two64() -> nat {
    0x1_0000_0000_0000_0000nat
}

/// 2^128.
#[verifier::inline]
pub open spec fn two128() -> nat {
    0x1_0000_0000_0000_0000_0000_0000_0000_0000nat
}

/// 2^192.
#[verifier::inline]
pub open spec fn two192() -> nat {
    0x1_0000_0000_0000_0000_0000_0000_0000_0000_0000_0000_0000_0000nat
}

/// 2^256: every `U256` is below it.
#[verifier::inline]
pub open spec fn u256_bound() -> nat {
    0x1_0000_0000_0000_0000_0000_0000_0000_0000_0000_0000_0000_0000_0000_0000_0000_0000nat
}

/// Value of bytes read as a big-endian number.
pub open spec fn be_value(b: Seq<u8>) -> nat
    decreases b.len(),
{
    if b.len() == 0 {
        0
    } else {
        be_value(b.drop_last()) * 256 + b.last() as nat
    }
}

/// 256 to the power `k`.
pub open spec fn pow256(k: nat) -> nat
    decreases k,
{
    if k == 0 {
        1
    } else {
        256 * pow256((k - 1) as nat)
    }
}

/// The `len` least significant bytes of `n`, most significant first.
pub open spec fn be_bytes(n: nat, len: nat) -> Seq<u8>
    decreases len,
{
    if len == 0 {
        Seq::empty()
    } else {
        be_bytes(n / 256, (len - 1) as nat).push((n % 256) as u8)
    }
}

/// The `len` least significant bytes of `n`, least significant first.
pub open spec fn le_bytes(n: nat, len: nat) -> Seq<u8>
    decreases len,
{
    if len == 0 {
        Seq::empty()
    } else {
        seq![(n % 256) as u8] + le_bytes(n / 256, (len - 1) as nat)
    }
}

/// Value of bytes read as a little-endian number.
pub open spec fn le_value(b: Seq<u8>) -> nat
    decreases b.len(),
{
    if b.len() == 0 {
        0
    } else {
        b[0] as nat + 256 * le_value(b.drop_first())
    }
}

pub proof fn lemma_pow256_positive(k: nat)
    ensures
        pow256(k) > 0,
    decreases k,
{
    if k > 0 {
        lemma_pow256_positive((k - 1) as nat);
    }
}

/// Reading the big-endian bytes of `n` gives `n` modulo 256^len.
pub proof fn lemma_be_bytes_value(n: nat, len: nat)
    ensures
        be_bytes(n, len).len() == len,
        be_value(be_bytes(n, len)) == n % pow256(len),
    decreases len,
{
    if len > 0 {
        let p = pow256((len - 1) as nat);
        lemma_pow256_positive((len - 1) as nat);
        lemma_be_bytes_value(n / 256, (len - 1) as nat);
        let s = be_bytes(n / 256, (len - 1) as nat);
        assert(be_bytes(n, len).drop_last() =~= s);
        vstd::arithmetic::div_mod::lemma_mod_breakdown(n as int, 256, p as int);
    }
}

/// Reading the little-endian bytes of `n` gives `n` modulo 256^len.
pub proof fn lemma_le_bytes_value(n: nat, len: nat)
    ensures
        le_bytes(n, len).len() == len,
        le_value(le_bytes(n, len)) == n % pow256(len),
    decreases len,
{
    if len > 0 {
        let p = pow256((len - 1) as nat);
        lemma_pow256_positive((len - 1) as nat);
        lemma_le_bytes_value(n / 256, (len - 1) as nat);
        let s = le_bytes(n / 256, (len - 1) as nat);
        assert(le_bytes(n, len).drop_first() =~= s);
        vstd::arithmetic::div_mod::lemma_mod_breakdown(n as int, 256, p as int);
    }
}

/// Writing the value of bytes back as that many bytes gives the bytes.
pub proof fn lemma_be_value_bytes(b: Seq<u8>)
    ensures
        be_bytes(be_value(b), b.len()) == b,
        be_value(b) < pow256(b.len()),
    decreases b.len(),
{
    if b.len() > 0 {
        let p = b.drop_last();
        lemma_be_value_bytes(p);
        let v = be_value(b);
        vstd::arithmetic::div_mod::lemma_fundamental_div_mod_converse(
            v as int,
            256,
            be_value(p) as int,
            b.last() as int,
        );
        assert(be_bytes(v, b.len()) =~= p.push(b.last()));
        assert(p.push(b.last()) =~= b);
        assert(be_value(p) * 256 + b.last() < pow256(b.len())) by (nonlinear_arith)
            requires
                be_value(p) < pow256(p.len()),
                pow256(b.len()) == 256 * pow256(p.len()),
                b.last() < 256,
        ;
    } else {
        assert(be_bytes(be_value(b), 0) =~= b);
    }
}

pub proof fn lemma_pow256_8()
    ensures
        pow256(8) == two64(),
{
    reveal_with_fuel(pow256, 9);
}

pub proof fn lemma_pow256_32()
    ensures
        pow256(32) == u256_bound(),
{
    reveal_with_fuel(pow256, 33);
}

/// A 256-bit unsigned integer, as four 64-bit words, least significant first
/// (the layout of `primitive_types::U256`).
#[derive(Debug, Clone, Copy, PartialEq, Eq, Structural)]
pub struct U256 {
    pub w0: u64,
    pub w1: u64,
    pub w2: u64,
    pub w3: u64,
}

impl View for U256 {
    type V = nat;

    open spec fn view(&self) -> nat {
        self.w0 as nat + self.w1 as nat * two64() + self.w2 as nat * two128() + self.w3 as nat
            * two192()
    }
}

pub proof fn lemma_u256_bound(x: U256)
    ensures
        x@ < u256_bound(),
{
}

impl U256 {
    pub fn zero() -> (r: U256)
        ensures
            r@ == 0,
    {
        U256 { w0: 0, w1: 0, w2: 0, w3: 0 }
    }

    pub fn max_value() -> (r: U256)
        ensures
            r@ == u256_bound() - 1,
    {
        let r = U256 { w0: u64::MAX, w1: u64::MAX, w2: u64::MAX, w3: u64::MAX };
        let ghost m: nat = 0xffff_ffff_ffff_ffffnat;
        assert(m + m * two64() + m * two128() + m * two192() == u256_bound() - 1) by (nonlinear_arith)
            requires m == 0xffff_ffff_ffff_ffffnat;
        assert(r@ == u256_bound() - 1);
        r
    }

    pub fn from_u64(x: u64) -> (r: U256)
        ensures
            r@ == x,
    {
        U256 { w0: x, w1: 0, w2: 0, w3: 0 }
    }

    pub fn from_u128(x: u128) -> (r: U256)
        ensures
            r@ == x,
    {
        let lo: u64 = (x % 0x1_0000_0000_0000_0000u128) as u64;
        let hi: u64 = (x / 0x1_0000_0000_0000_0000u128) as u64;
        proof {
            vstd::arithmetic::div_mod::lemma_fundamental_div_mod(x as int, two64() as int);
        }
        U256 { w0: lo, w1: hi, w2: 0, w3: 0 }
    }

    pub fn is_zero(&self) -> (r: bool)
        ensures
            r == (self@ == 0),
    {
        self.w0 == 0 && self.w1 == 0 && self.w2 == 0 && self.w3 == 0
    }

    /// Equality of values.
    pub fn equals(&self, other: &U256) -> (r: bool)
        ensures
            r == (self@ == other@),
    {
        let r = self.w0 == other.w0 && self.w1 == other.w1 && self.w2 == other.w2 && self.w3
            == other.w3;
        proof {
            if self@ == other@ {
                lemma_u256_words_determined(*self, *other);
            }
        }
        r
    }
}

/// Two numbers of equal value have equal words.
pub proof fn lemma_u256_words_determined(x: U256, y: U256)
    requires
        x@ == y@,
    ensures
        x == y,
{
    let m: int = two64() as int;
    let sa = x.w2 + x.w3 * m;
    let sb = y.w2 + y.w3 * m;
    let ra = x.w1 + sa * m;
    let rb = y.w1 + sb * m;
    assert(x@ == x.w0 + ra * m && y@ == y.w0 + rb * m);
    vstd::arithmetic::div_mod::lemma_fundamental_div_mod_converse(x@ as int, m, ra, x.w0 as int);
    vstd::arithmetic::div_mod::lemma_fundamental_div_mod_converse(y@ as int, m, rb, y.w0 as int);
    vstd::arithmetic::div_mod::lemma_fundamental_div_mod_converse(ra, m, sa, x.w1 as int);
    vstd::arithmetic::div_mod::lemma_fundamental_div_mod_converse(rb, m, sb, y.w1 as int);
    vstd::arithmetic::div_mod::lemma_fundamental_div_mod_converse(sa, m, x.w3 as int, x.w2 as int);
    vstd::arithmetic::div_mod::lemma_fundamental_div_mod_converse(sb, m, y.w3 as int, y.w2 as int);
}

/// Sum of two numbers whose sum fits in 256 bits.
///
/// Trusted: calls `Add::add` of `primitive_types::U256`, which returns the sum
/// and panics on overflow (excluded by the precondition).
#[verifier::external_body]
pub(crate) fn u256_add(a: &U256, b: &U256) -> (r: U256)
    requires
        a@ + b@ < u256_bound(),
    ensures
        r@ == a@ + b@,
{
    let w = (primitive_types::U256([a.w0, a.w1, a.w2, a.w3]) + primitive_types::U256([b.w0, b.w1, b.w2, b.w3])).0;
    U256 { w0: w[0], w1: w[1], w2: w[2], w3: w[3] }
}

/// Product of two numbers whose product fits in 256 bits.
///
/// Trusted: calls `Mul::mul` of `primitive_types::U256`, which returns the
/// product and panics on overflow (excluded by the precondition).
#[verifier::external_body]
pub(crate) fn u256_mul(a: &U256, b: &U256) -> (r: U256)
    requires
        a@ * b@ < u256_bound(),
    ensures
        r@ == a@ * b@,
{
    let w = (primitive_types::U256([a.w0, a.w1, a.w2, a.w3]) * primitive_types::U256([b.w0, b.w1, b.w2, b.w3])).0;
    U256 { w0: w[0], w1: w[1], w2: w[2], w3: w[3] }
}

/// The low 128 bits.
///
/// Trusted: calls `primitive_types::U256::low_u128`, which returns the two
/// least significant words as one `u128`.
#[verifier::external_body]
pub(crate) fn u256_low_u128(a: &U256) -> (r: u128)
    ensures
        r == a@ % (two64() * two64()),
{
    primitive_types::U256([a.w0, a.w1, a.w2, a.w3]).low_u128()
}

/// The number whose big-endian bytes are `bytes` (at most 32 of them).
///
/// Trusted: calls `primitive_types::U256::from_big_endian`, which reads the
/// bytes as a big-endian number and panics on more than 32 bytes (excluded by
/// the precondition).
#[verifier::external_body]
pub(crate) fn u256_from_big_endian(bytes: &[u8]) -> (r: U256)
    requires
        bytes@.len() <= 32,
    ensures
        r@ == be_value(bytes@),
{
    let w = primitive_types::U256::from_big_endian(bytes).0;
    U256 { w0: w[0], w1: w[1], w2: w[2], w3: w[3] }
}

/// The 32 big-endian bytes of a number.
///
/// Trusted: calls `primitive_types::U256::to_big_endian`, which writes the
/// number as 32 bytes, most significant first.
#[verifier::external_body]
pub(crate) fn u256_to_big_endian(a: &U256) -> (r: [u8; 32])
    ensures
        r@ == be_bytes(a@, 32),
{
    primitive_types::U256([a.w0, a.w1, a.w2, a.w3]).to_big_endian()
}

/// Byte `j` of the little-endian bytes of `n` is `n / 256^j` modulo 256.
pub proof fn lemma_le_bytes_index(n: nat, len: nat, j: nat)
    requires
        j < len,
    ensures
        le_bytes(n, len).len() == len,
        le_bytes(n, len)[j as int] == ((n / pow256(j)) % 256) as u8,
    decreases j,
{
    lemma_le_bytes_value(n, len);
    assert(pow256(0) == 1);
    if j == 0 {
        assert(le_bytes(n, len)[0] == (n % 256) as u8);
    } else {
        assert(pow256(j) == 256 * pow256((j - 1) as nat));
        lemma_le_bytes_index(n / 256, (len - 1) as nat, (j - 1) as nat);
        lemma_pow256_positive((j - 1) as nat);
        vstd::arithmetic::div_mod::lemma_div_denominator(n as int, 256, pow256((j - 1) as nat) as int);
        assert(le_bytes(n, len)[j as int] == le_bytes(n / 256, (len - 1) as nat)[j - 1]);
    }
}

/// A little-endian number of `k` bytes is below 256^k.
pub proof fn lemma_le_value_bound(b: Seq<u8>)
    ensures
        le_value(b) < pow256(b.len()),
    decreases b.len(),
{
    if b.len() > 0 {
        lemma_le_value_bound(b.drop_first());
        let v = le_value(b.drop_first());
        let p = pow256(b.drop_first().len());
        assert(b[0] as nat + 256 * v < 256 * p) by (nonlinear_arith)
            requires
                v < p,
                b[0] < 256,
        ;
    }
}

/// The eight little-endian bytes of a 64-bit number.
pub(crate) fn u64_to_le_bytes(x: u64) -> (r: [u8; 8])
    ensures
        r@ == le_bytes(x as nat, 8),
{
    let mut out = [0u8; 8];
    let mut v: u64 = x;
    let mut k: usize = 0;
    assert(pow256(0) == 1);
    while k < 8
        invariant
            0 <= k <= 8,
            out@.len() == 8,
            v as nat == x as nat / pow256(k as nat),
            forall|j: int| 0 <= j < k ==> out@[j] == #[trigger] le_bytes(x as nat, 8)[j],
        decreases 8 - k,
    {
        proof {
            lemma_le_bytes_index(x as nat, 8, k as nat);
            lemma_pow256_positive(k as nat);
            vstd::arithmetic::div_mod::lemma_div_denominator(x as int, pow256(k as nat) as int, 256);
            assert(pow256(k as nat) * 256 == pow256((k + 1) as nat)) by (nonlinear_arith)
                requires
                    pow256((k + 1) as nat) == 256 * pow256(k as nat),
            ;
        }
        out[k] = (v % 256) as u8;
        v = v / 256;
        k = k + 1;
    }
    proof {
        lemma_le_bytes_value(x as nat, 8);
    }
    assert(out@ =~= le_bytes(x as nat, 8));
    out
}

/// The 64-bit number with eight given little-endian bytes.
pub(crate) fn u64_from_le_bytes(b: [u8; 8]) -> (r: u64)
    ensures
        r as nat == le_value(b@),
{
    let mut r: u64 = 0;
    let mut k: usize = 8;
    proof {
        assert(b@.subrange(8, 8) =~= Seq::<u8>::empty());
    }
    while k > 0
        invariant
            0 <= k <= 8,
            b@.len() == 8,
            r as nat == le_value(b@.subrange(k as int, 8)),
        decreases k,
    {
        let ghost rest = b@.subrange(k as int, 8);
        let ghost next = b@.subrange(k - 1, 8);
        proof {
            assert(next.drop_first() =~= rest);
            lemma_le_value_bound(next);
            lemma_pow256_8();
            assert(pow256(next.len()) <= pow256(8)) by {
                if next.len() < 8 {
                    lemma_pow256_monotone(next.len(), 8);
                }
            }
            assert(le_value(next) == next[0] as nat + 256 * le_value(rest));
        }
        r = r * 256 + b[k - 1] as u64;
        k = k - 1;
    }
    assert(b@.subrange(0, 8) =~= b@);
    r
}

/// 256^j is at most 256^k when j <= k.
pub proof fn lemma_pow256_monotone(j: nat, k: nat)
    requires
        j <= k,
    ensures
        pow256(j) <= pow256(k),
    decreases k,
{
    if j < k {
        lemma_pow256_monotone(j, (k - 1) as nat);
        lemma_pow256_positive((k - 1) as nat);
    }
}

/// Lowercase hexadecimal digits of a number, without leading zeros.
///
/// Trusted: formats `primitive_types::U256` with `{:x}` (its `LowerHex`),
/// which writes `0` for zero and otherwise the digits from the most
/// significant non-zero one, in lowercase.
#[verifier::external_body]
pub(crate) fn u256_lower_hex(a: &U256) -> (r: String)
    ensures
        r@ == chars_of(hex_number(a@)),
{
    format!("{:x}", primitive_types::U256([a.w0, a.w1, a.w2, a.w3]))
}

/// What `primitive_types::U256::from_str_radix(s, 16)` gives for the bytes of
/// `s`: one leading `0x` is dropped, at most 64 hexadecimal digits of either
/// case may follow (none at all reads as zero), and anything else is rejected.
pub open spec fn parse_u256_hex_spec(b: Seq<u8>) -> Option<nat> {
    let digits = if b.len() >= 2 && b[0] == 48u8 && b[1] == 120u8 { b.skip(2) } else { b };
    if digits.len() <= 64 && all_hex_digits(digits) {
        Some(hex_digits_value(digits))
    } else {
        None
    }
}

/// Parses hexadecimal digits into a number.
///
/// Trusted: calls `primitive_types::U256::from_str_radix(s, 16)`; its error is
/// turned into `None`.
#[verifier::external_body]
pub(crate) fn u256_from_str_radix16(s: &str) -> (r: Option<U256>)
    ensures
        match r {
            Some(v) => parse_u256_hex_spec(s.spec_bytes()) == Some(v@),
            None => parse_u256_hex_spec(s.spec_bytes()) is None,
        },
{
    match primitive_types::U256::from_str_radix(s, 16) {
        Ok(v) => Some(U256 { w0: v.0[0], w1: v.0[1], w2: v.0[2], w3: v.0[3] }),
        Err(_) => None,
    }
}

/// A 32-byte hash (the layout of `primitive_types::H256`).
#[derive(Debug, Clone, Copy, PartialEq, Eq)]
pub struct H256(pub [u8; 32]);

impl View for H256 {
    type V = Seq<u8>;

    open spec fn view(&self) -> Seq<u8> {
        self.0@
    }
}

/// The eight big-endian bytes of a 64-bit number.
pub open spec fn u64_be_bytes(x: u64) -> Seq<u8> {
    Seq::new(8, |i: int| ((x as nat / vstd::arithmetic::power::pow(256, (7 - i) as nat) as nat) % 256) as u8)
}

impl H256 {
    pub fn zero() -> (r: H256)
        ensures
            r@ == Seq::new(32, |i: int| 0u8),
    {
        let r = H256([0u8; 32]);
        assert(r@ =~= Seq::new(32, |i: int| 0u8));
        r
    }

    /// A hash with every byte equal to `b`.
    pub fn repeat_byte(b: u8) -> (r: H256)
        ensures
            r@ == Seq::new(32, |i: int| b),
    {
        let r = H256([b; 32]);
        assert(r@ =~= Seq::new(32, |i: int| b));
        r
    }

    /// A hash whose last eight bytes are `x` in big-endian order, the rest zero.
    pub fn from_low_u64_be(x: u64) -> (r: H256)
        ensures
            r@ == Seq::new(24, |i: int| 0u8) + u64_be_bytes(x),
    {
        let mut a = [0u8; 32];
        let mut v: u64 = x;
        let mut k: usize = 0;
        proof {
            vstd::arithmetic::power::lemma_pow0(256);
            vstd::arithmetic::div_mod::lemma_div_basics_2(x as int);
        }
        while k < 8
            invariant
                0 <= k <= 8,
                a@.len() == 32,
                forall|i: int| 0 <= i < 24 ==> a@[i] == 0u8,
                forall|i: int| 32 - k <= i < 32 ==> #[trigger] a@[i] == u64_be_bytes(x)[i - 24],
                v as nat == x as nat / vstd::arithmetic::power::pow(256, k as nat) as nat,
            decreases 8 - k,
        {
            proof {
                vstd::arithmetic::power::lemma_pow_positive(256, k as nat);
                vstd::arithmetic::power::lemma_pow_adds(256, k as nat, 1);
                vstd::arithmetic::power::lemma_pow1(256);
                vstd::arithmetic::div_mod::lemma_div_denominator(
                    x as int,
                    vstd::arithmetic::power::pow(256, k as nat),
                    256,
                );
            }
            a[31 - k] = (v % 256) as u8;
            v = v / 256;
            k = k + 1;
        }
        let r = H256(a);
        assert(r@ =~= Seq::new(24, |i: int| 0u8) + u64_be_bytes(x));
        r
    }

    /// A hash copied from exactly 32 bytes.
    pub fn from_slice(b: &[u8]) -> (r: H256)
        requires
            b@.len() == 32,
        ensures
            r@ == b@,
    {
        let mut a = [0u8; 32];
        let mut i: usize = 0;
        while i < 32
            invariant
                0 <= i <= 32,
                b@.len() == 32,
                forall|j: int| 0 <= j < i ==> a@[j] == b@[j],
            decreases 32 - i,
        {
            a[i] = b[i];
            i = i + 1;
        }
        let r = H256(a);
        assert(r@ =~= b@);
        r
    }

    pub fn as_bytes(&self) -> (r: &[u8])
        ensures
            r@ == self@,
    {
        self.0.as_slice()
    }

    /// Equality of bytes.
    pub fn equals(&self, other: &H256) -> (r: bool)
        ensures
            r == (self@ == other@),
    {
        let mut i: usize = 0;
        while i < 32
            invariant
                0 <= i <= 32,
                forall|j: int| 0 <= j < i ==> self@[j] == other@[j],
            decreases 32 - i,
        {
            if self.0[i] != other.0[i] {
                return false;
            }
            i = i + 1;
        }
        assert(self@ =~= other@);
        true
    }
}

} // verus!
