//! Text and byte-string building blocks: ASCII digits, decimal and hexadecimal
//! renderings, and the hex codec of the `hex` crate.
use vstd::prelude::*;
use vstd::string::StringSliceAdditionalSpecFns;

verus! {

broadcast use vstd::string::group_string_axioms;

/// The ASCII bytes of a sequence of characters (each character below 128).
pub open spec fn ascii_of(s: Seq<char>) -> Seq<u8> {
    s.map_values(|c: char| c as u8)
}

/// The characters of a sequence of ASCII bytes.
pub open spec fn chars_of(b: Seq<u8>) -> Seq<char> {
    b.map_values(|x: u8| x as char)
}

pub open spec fn all_ascii(b: Seq<u8>) -> bool {
    forall|i: int| 0 <= i < b.len() ==> #[trigger] b[i] < 128
}

/// ASCII byte of a decimal digit.
pub open spec fn dec_digit(d: nat) -> u8 {
    (48 + d) as u8
}

/// Decimal rendering of a natural number, without leading zeros.
pub open spec fn decimal(n: nat) -> Seq<u8>
    decreases n,
{
    if n < 10 {
        seq![dec_digit(n)]
    } else {
        decimal(n / 10).push(dec_digit(n % 10))
    }
}

/// Decimal rendering left-padded with zeros to at least `width` digits.
pub open spec fn decimal_padded(n: nat, width: nat) -> Seq<u8> {
    let d = decimal(n);
    if d.len() >= width {
        d
    } else {
        Seq::new((width - d.len()) as nat, |i: int| 48u8) + d
    }
}

/// Decimal rendering of a signed integer, with a leading minus sign when negative.
pub open spec fn decimal_signed(n: int) -> Seq<u8> {
    if n < 0 {
        seq![45u8] + decimal((-n) as nat)
    } else {
        decimal(n as nat)
    }
}

/// ASCII byte of a lowercase hexadecimal digit.
pub open spec fn hex_digit(d: nat) -> u8 {
    if d < 10 {
        (48 + d) as u8
    } else {
        (87 + d) as u8
    }
}

/// Lowercase hexadecimal rendering of a byte string, two digits per byte.
pub open spec fn hex_lower(b: Seq<u8>) -> Seq<u8>
    decreases b.len(),
{
    if b.len() == 0 {
        Seq::empty()
    } else {
        hex_lower(b.drop_last()) + seq![hex_digit((b.last() / 16) as nat), hex_digit((b.last() % 16) as nat)]
    }
}

/// Lowercase hexadecimal rendering of a natural number, without leading zeros.
pub open spec fn hex_number(n: nat) -> Seq<u8>
    decreases n,
{
    if n < 16 {
        seq![hex_digit(n)]
    } else {
        hex_number(n / 16).push(hex_digit(n % 16))
    }
}

/// Value of a hexadecimal digit byte (either case).
pub open spec fn hex_value(c: u8) -> Option<nat> {
    if 48 <= c <= 57 {
        Some((c - 48) as nat)
    } else if 97 <= c <= 102 {
        Some((c - 87) as nat)
    } else if 65 <= c <= 70 {
        Some((c - 55) as nat)
    } else {
        None
    }
}

pub open spec fn all_hex_digits(b: Seq<u8>) -> bool {
    forall|i: int| 0 <= i < b.len() ==> (#[trigger] hex_value(b[i])) is Some
}

/// Numeric value of a string of hexadecimal digits (most significant first).
pub open spec fn hex_digits_value(b: Seq<u8>) -> nat
    decreases b.len(),
{
    if b.len() == 0 {
        0
    } else {
        hex_digits_value(b.drop_last()) * 16 + hex_value(b.last()).unwrap_or(0)
    }
}

/// Decoding of pairs of hexadecimal digits into bytes; `None` when a digit is invalid.
pub open spec fn hex_pairs(b: Seq<u8>) -> Option<Seq<u8>>
    decreases b.len(),
{
    if b.len() < 2 {
        Some(Seq::empty())
    } else {
        let n = b.len();
        match (hex_pairs(b.subrange(0, n - 2)), hex_value(b[n - 2]), hex_value(b[n - 1])) {
            (Some(prefix), Some(hi), Some(lo)) => Some(prefix.push((hi * 16 + lo) as u8)),
            _ => None,
        }
    }
}

/// What `hex::decode` gives for the bytes of its input: `None` for an odd
/// length or any byte that is not a hexadecimal digit of either case.
pub open spec fn hex_decode_spec(b: Seq<u8>) -> Option<Seq<u8>> {
    if b.len() % 2 != 0 {
        None
    } else {
        hex_pairs(b)
    }
}

/// What `u8::from_str_radix(s, 16)` gives for the bytes of `s`: an optional
/// leading `+`, then at least one hexadecimal digit, with a value below 256.
pub open spec fn parse_u8_hex_spec(b: Seq<u8>) -> Option<u8> {
    let digits = if b.len() > 0 && b[0] == 43u8 { b.drop_first() } else { b };
    if digits.len() > 0 && all_hex_digits(digits) && hex_digits_value(digits) < 256 {
        Some(hex_digits_value(digits) as u8)
    } else {
        None
    }
}

pub proof fn lemma_decimal_ascii(n: nat)
    ensures
        all_ascii(decimal(n)),
        decimal(n).len() >= 1,
        forall|i: int| 0 <= i < decimal(n).len() ==> 48 <= #[trigger] decimal(n)[i] <= 57,
    decreases n,
{
    if n >= 10 {
        lemma_decimal_ascii(n / 10);
    }
}

pub proof fn lemma_hex_number_ascii(n: nat)
    ensures
        all_ascii(hex_number(n)),
        forall|i: int| 0 <= i < hex_number(n).len() ==> (#[trigger] hex_value(hex_number(n)[i])) is Some,
    decreases n,
{
    if n >= 16 {
        lemma_hex_number_ascii(n / 16);
    }
}

pub proof fn lemma_hex_lower_len(b: Seq<u8>)
    ensures
        hex_lower(b).len() == 2 * b.len(),
        all_ascii(hex_lower(b)),
    decreases b.len(),
{
    if b.len() > 0 {
        lemma_hex_lower_len(b.drop_last());
    }
}

/// Every byte of a hexadecimal rendering is a hexadecimal digit.
pub proof fn lemma_hex_lower_digits(b: Seq<u8>)
    ensures
        all_hex_digits(hex_lower(b)),
    decreases b.len(),
{
    if b.len() > 0 {
        lemma_hex_lower_digits(b.drop_last());
        lemma_hex_digit_value((b.last() / 16) as nat);
        lemma_hex_digit_value((b.last() % 16) as nat);
        let h = hex_lower(b);
        let p = hex_lower(b.drop_last());
        assert forall|i: int| 0 <= i < h.len() implies (#[trigger] hex_value(h[i])) is Some by {
            if i < p.len() {
                assert(h[i] == p[i]);
            }
        }
    }
}

/// Every byte of a hexadecimal rendering is a digit or a lowercase letter up to `f`.
pub proof fn lemma_hex_lower_lowercase(b: Seq<u8>)
    ensures
        forall|i: int| 0 <= i < hex_lower(b).len() ==> (48u8 <= #[trigger] hex_lower(b)[i] <= 57u8 || 97u8
            <= hex_lower(b)[i] <= 102u8),
    decreases b.len(),
{
    if b.len() > 0 {
        lemma_hex_lower_lowercase(b.drop_last());
        let h = hex_lower(b);
        let p = hex_lower(b.drop_last());
        assert forall|i: int| 0 <= i < h.len() implies (48u8 <= #[trigger] h[i] <= 57u8 || 97u8 <= h[i] <= 102u8) by {
            if i < p.len() {
                assert(h[i] == p[i]);
            }
        }
    }
}

/// 16 to the power `k`.
pub open spec fn pow16(k: nat) -> nat
    decreases k,
{
    if k == 0 {
        1
    } else {
        16 * pow16((k - 1) as nat)
    }
}

/// The hexadecimal digits of a number read back give the number, and a
/// number below 16^k has at most k digits.
pub proof fn lemma_hex_number_value(n: nat, k: nat)
    requires
        k >= 1,
        n < pow16(k),
    ensures
        hex_digits_value(hex_number(n)) == n,
        hex_number(n).len() <= k,
        hex_number(n).len() >= 1,
    decreases n,
{
    if n < 16 {
        lemma_hex_digit_value(n);
        assert(hex_number(n).drop_last() =~= Seq::<u8>::empty());
        assert(hex_digits_value(Seq::<u8>::empty()) == 0);
        assert(hex_digits_value(hex_number(n)) == hex_digits_value(hex_number(n).drop_last()) * 16
            + hex_value(hex_number(n).last()).unwrap_or(0));
    } else {
        let q = n / 16;
        assert(k >= 2) by {
            if k == 1 {
                reveal_with_fuel(pow16, 2);
            }
        }
        assert(q < pow16((k - 1) as nat)) by (nonlinear_arith)
            requires
                n < pow16(k),
                pow16(k) == 16 * pow16((k - 1) as nat),
                q == n / 16,
        ;
        lemma_hex_number_value(q, (k - 1) as nat);
        lemma_hex_digit_value(n % 16);
        assert(hex_number(n).drop_last() =~= hex_number(q));
        assert(hex_number(n).last() == hex_digit(n % 16));
        vstd::arithmetic::div_mod::lemma_fundamental_div_mod(n as int, 16);
        assert(hex_digits_value(hex_number(n)) == hex_digits_value(hex_number(q)) * 16 + (n % 16));
    }
}

pub proof fn lemma_pow16_64()
    ensures
        pow16(64) == crate::uint::u256_bound(),
{
    reveal_with_fuel(pow16, 65);
}

pub proof fn lemma_hex_digit_value(d: nat)
    requires
        d < 16,
    ensures
        hex_value(hex_digit(d)) == Some(d),
{
}

/// Decoding the lowercase hexadecimal rendering of bytes gives the bytes back.
pub proof fn lemma_hex_roundtrip(b: Seq<u8>)
    ensures
        hex_decode_spec(hex_lower(b)) == Some(b),
    decreases b.len(),
{
    lemma_hex_lower_len(b);
    if b.len() > 0 {
        let p = b.drop_last();
        lemma_hex_roundtrip(p);
        lemma_hex_lower_len(p);
        let h = hex_lower(b);
        let n = h.len();
        assert(h.subrange(0, n - 2) =~= hex_lower(p));
        let x = b.last();
        lemma_hex_digit_value((x / 16) as nat);
        lemma_hex_digit_value((x % 16) as nat);
        assert(((x / 16) as nat * 16 + (x % 16) as nat) as u8 == x);
        assert(p.push(x) =~= b);
    } else {
        assert(hex_lower(b) =~= Seq::<u8>::empty());
    }
}

/// Appends a character to a string.
///
/// Trusted: calls `String::push`, which appends the character at the end.
#[verifier::external_body]
pub(crate) fn push_char(s: &mut String, c: char)
    ensures
        final(s)@ == old(s)@.push(c),
{
    s.push(c);
}

/// Appends the decimal rendering of `n` to `out`.
pub fn push_decimal(out: &mut Vec<u8>, n: u128)
    ensures
        final(out)@ == old(out)@ + decimal(n as nat),
    decreases n,
{
    if n < 10 {
        out.push(48u8 + n as u8);
        assert(decimal(n as nat) =~= seq![dec_digit(n as nat)]);
    } else {
        push_decimal(out, n / 10);
        out.push(48u8 + (n % 10) as u8);
        assert(decimal(n as nat) =~= decimal((n / 10) as nat).push(dec_digit((n % 10) as nat)));
    }
}

/// Appends the decimal rendering of a signed 64-bit integer to `out`.
pub fn push_decimal_signed(out: &mut Vec<u8>, n: i64)
    ensures
        final(out)@ == old(out)@ + decimal_signed(n as int),
{
    if n < 0 {
        out.push(45u8);
        let m: u128 = (0i128 - (n as i128)) as u128;
        push_decimal(out, m);
        assert(final(out)@ =~= old(out)@ + decimal_signed(n as int));
    } else {
        push_decimal(out, n as u128);
    }
}

/// Appends every byte of `src` to `out`.
pub fn push_bytes(out: &mut Vec<u8>, src: &[u8])
    ensures
        final(out)@ == old(out)@ + src@,
{
    let ghost start = out@;
    let mut i: usize = 0;
    while i < src.len()
        invariant
            0 <= i <= src.len(),
            out@ == start + src@.subrange(0, i as int),
        decreases src.len() - i,
    {
        out.push(src[i]);
        i = i + 1;
        assert(out@ =~= start + src@.subrange(0, i as int));
    }
    assert(src@.subrange(0, src@.len() as int) =~= src@);
}

/// Appends the bytes of an ASCII string to `out`.
pub fn push_ascii_str(out: &mut Vec<u8>, s: &str)
    requires
        vstd::string::is_ascii(s),
    ensures
        final(out)@ == old(out)@ + ascii_of(s@),
{
    proof {
        vstd::string::is_ascii_spec_bytes(s);
    }
    let b = s.as_bytes();
    push_bytes(out, b);
    assert(b@ =~= ascii_of(s@));
}

/// Appends ASCII bytes to a string, one character each.
pub fn push_ascii_bytes(s: &mut String, b: &[u8])
    requires
        all_ascii(b@),
    ensures
        final(s)@ == old(s)@ + chars_of(b@),
{
    let ghost start = s@;
    let mut i: usize = 0;
    while i < b.len()
        invariant
            0 <= i <= b.len(),
            s@ == start + chars_of(b@.subrange(0, i as int)),
        decreases b.len() - i,
    {
        push_char(s, b[i] as char);
        i = i + 1;
        assert(s@ =~= start + chars_of(b@.subrange(0, i as int)));
    }
    assert(b@.subrange(0, b@.len() as int) =~= b@);
}

/// The bytes of a string made of ASCII characters are those characters.
pub fn ascii_string_bytes(s: &String) -> (r: Vec<u8>)
    requires
        vstd::utf8::is_ascii_chars(s@),
    ensures
        r@ == ascii_of(s@),
{
    let t = s.as_str();
    let mut out: Vec<u8> = Vec::new();
    push_ascii_str(&mut out, t);
    assert(out@ =~= ascii_of(s@));
    out
}

pub proof fn lemma_chars_of_ascii(b: Seq<u8>)
    requires
        all_ascii(b),
    ensures
        ascii_of(chars_of(b)) == b,
        vstd::utf8::is_ascii_chars(chars_of(b)),
{
    assert(ascii_of(chars_of(b)) =~= b);
    assert forall|i: int| 0 <= i < chars_of(b).len() implies '\0' <= #[trigger] chars_of(b)[i] <= '\u{7f}' by {
        assert(b[i] < 128);
    }
}

/// Decimal rendering of `n` as a string.
pub fn decimal_string(n: u128) -> (r: String)
    ensures
        r@ == chars_of(decimal(n as nat)),
{
    let mut digits: Vec<u8> = Vec::new();
    push_decimal(&mut digits, n);
    proof {
        assert(digits@ =~= decimal(n as nat));
        lemma_decimal_ascii(n as nat);
    }
    let mut s = String::new();
    push_ascii_bytes(&mut s, digits.as_slice());
    assert(s@ =~= chars_of(decimal(n as nat)));
    s
}

/// Numeric value of a string of decimal digits (most significant first).
pub open spec fn decimal_digits_value(b: Seq<u8>) -> nat
    decreases b.len(),
{
    if b.len() == 0 {
        0
    } else {
        decimal_digits_value(b.drop_last()) * 10 + (b.last() - 48) as nat
    }
}

/// 10 to the power `k`.
pub open spec fn pow10(k: nat) -> nat
    decreases k,
{
    if k == 0 {
        1
    } else {
        10 * pow10((k - 1) as nat)
    }
}

/// The decimal rendering of a number reads back as the number, and a number
/// below 10^k has at most k digits.
pub proof fn lemma_decimal_value(n: nat, k: nat)
    requires
        k >= 1,
        n < pow10(k),
    ensures
        decimal_digits_value(decimal(n)) == n,
        decimal(n).len() <= k,
    decreases n,
{
    if n < 10 {
        assert(decimal(n).drop_last() =~= Seq::<u8>::empty());
        assert(decimal_digits_value(Seq::<u8>::empty()) == 0);
        assert(decimal(n).last() == dec_digit(n));
    } else {
        let q = n / 10;
        assert(k >= 2) by {
            if k == 1 {
                reveal_with_fuel(pow10, 2);
            }
        }
        assert(q < pow10((k - 1) as nat)) by (nonlinear_arith)
            requires
                n < pow10(k),
                pow10(k) == 10 * pow10((k - 1) as nat),
                q == n / 10,
        ;
        lemma_decimal_value(q, (k - 1) as nat);
        assert(decimal(n).drop_last() =~= decimal(q));
        assert(decimal(n).last() == dec_digit(n % 10));
        vstd::arithmetic::div_mod::lemma_fundamental_div_mod(n as int, 10);
    }
}

/// Leading zero digits add nothing to the value of decimal digits.
pub proof fn lemma_decimal_zeros_value(z: nat, s: Seq<u8>)
    ensures
        decimal_digits_value(Seq::new(z, |i: int| 48u8) + s) == decimal_digits_value(s),
    decreases s.len(), z,
{
    let zs = Seq::new(z, |i: int| 48u8);
    if s.len() > 0 {
        assert((zs + s).drop_last() =~= zs + s.drop_last());
        lemma_decimal_zeros_value(z, s.drop_last());
    } else if z > 0 {
        assert(zs + s =~= zs);
        assert(zs.drop_last() =~= Seq::new((z - 1) as nat, |i: int| 48u8) + s);
        lemma_decimal_zeros_value((z - 1) as nat, s);
    } else {
        assert(zs + s =~= s);
    }
}

/// A number below 10^w padded to `w` digits is exactly `w` decimal digits
/// that read back as the number.
pub proof fn lemma_decimal_padded(n: nat, w: nat)
    requires
        w >= 1,
        n < pow10(w),
    ensures
        decimal_padded(n, w).len() == w,
        decimal_digits_value(decimal_padded(n, w)) == n,
        forall|i: int| 0 <= i < w ==> 48 <= #[trigger] decimal_padded(n, w)[i] <= 57,
{
    lemma_decimal_value(n, w);
    lemma_decimal_ascii(n);
    let d = decimal(n);
    if d.len() < w {
        let zs = Seq::new((w - d.len()) as nat, |i: int| 48u8);
        lemma_decimal_zeros_value((w - d.len()) as nat, d);
        let p = decimal_padded(n, w);
        assert forall|i: int| 0 <= i < w implies 48 <= #[trigger] p[i] <= 57 by {
            if i >= zs.len() {
                assert(p[i] == d[i - zs.len()]);
            }
        }
    }
}

/// Distinct numbers have distinct decimal renderings.
pub proof fn lemma_decimal_injective(a: nat, b: nat)
    requires
        decimal(a) == decimal(b),
    ensures
        a == b,
    decreases a,
{
    if a < 10 && b < 10 {
        assert(decimal(a)[0] == dec_digit(a));
        assert(decimal(b)[0] == dec_digit(b));
    } else if a < 10 {
        lemma_decimal_ascii(b / 10);
        assert(decimal(b).len() >= 2);
    } else if b < 10 {
        lemma_decimal_ascii(a / 10);
        assert(decimal(a).len() >= 2);
    } else {
        assert(decimal(a).drop_last() =~= decimal(a / 10));
        assert(decimal(b).drop_last() =~= decimal(b / 10));
        lemma_decimal_injective(a / 10, b / 10);
        assert(decimal(a).last() == dec_digit(a % 10));
        assert(decimal(b).last() == dec_digit(b % 10));
        vstd::arithmetic::div_mod::lemma_fundamental_div_mod(a as int, 10);
        vstd::arithmetic::div_mod::lemma_fundamental_div_mod(b as int, 10);
    }
}

/// Distinct integers have distinct signed decimal renderings.
pub proof fn lemma_decimal_signed_injective(a: int, b: int)
    requires
        decimal_signed(a) == decimal_signed(b),
    ensures
        a == b,
{
    if a < 0 && b < 0 {
        assert(decimal_signed(a).drop_first() =~= decimal((-a) as nat));
        assert(decimal_signed(b).drop_first() =~= decimal((-b) as nat));
        lemma_decimal_injective((-a) as nat, (-b) as nat);
    } else if a < 0 {
        lemma_decimal_ascii(b as nat);
        assert(decimal_signed(b)[0] == decimal(b as nat)[0]);
    } else if b < 0 {
        lemma_decimal_ascii(a as nat);
        assert(decimal_signed(a)[0] == decimal(a as nat)[0]);
    } else {
        lemma_decimal_injective(a as nat, b as nat);
    }
}

/// Distinct numbers have distinct hexadecimal renderings.
pub proof fn lemma_hex_number_injective(a: nat, b: nat)
    requires
        hex_number(a) == hex_number(b),
    ensures
        a == b,
    decreases a,
{
    if a < 16 && b < 16 {
        assert(hex_number(a)[0] == hex_digit(a));
        assert(hex_number(b)[0] == hex_digit(b));
        lemma_hex_digit_value(a);
        lemma_hex_digit_value(b);
    } else if a < 16 {
        lemma_hex_number_nonempty(b / 16);
        assert(hex_number(b).len() >= 2);
    } else if b < 16 {
        lemma_hex_number_nonempty(a / 16);
        assert(hex_number(a).len() >= 2);
    } else {
        assert(hex_number(a).drop_last() =~= hex_number(a / 16));
        assert(hex_number(b).drop_last() =~= hex_number(b / 16));
        lemma_hex_number_injective(a / 16, b / 16);
        assert(hex_number(a).last() == hex_digit(a % 16));
        assert(hex_number(b).last() == hex_digit(b % 16));
        lemma_hex_digit_value(a % 16);
        lemma_hex_digit_value(b % 16);
        vstd::arithmetic::div_mod::lemma_fundamental_div_mod(a as int, 16);
        vstd::arithmetic::div_mod::lemma_fundamental_div_mod(b as int, 16);
    }
}

pub proof fn lemma_hex_number_nonempty(n: nat)
    ensures
        hex_number(n).len() >= 1,
    decreases n,
{
    if n >= 16 {
        lemma_hex_number_nonempty(n / 16);
    }
}

/// Two concatenations that start with the same prefix agree after it.
pub proof fn lemma_drop_common_prefix(p: Seq<u8>, x: Seq<u8>, y: Seq<u8>)
    requires
        p + x == p + y,
    ensures
        x == y,
{
    assert(x =~= (p + x).subrange(p.len() as int, (p + x).len() as int));
    assert(y =~= (p + y).subrange(p.len() as int, (p + y).len() as int));
}

/// Two concatenations that end with the same suffix agree before it.
pub proof fn lemma_drop_common_suffix(x: Seq<u8>, y: Seq<u8>, q: Seq<u8>)
    requires
        x + q == y + q,
    ensures
        x == y,
{
    assert(x =~= (x + q).subrange(0, x.len() as int));
    assert(y =~= (y + q).subrange(0, y.len() as int));
}

/// A concatenation whose first part ends with a byte that the second part
/// does not hold splits in one way only.
pub proof fn lemma_split_after_byte(a1: Seq<u8>, d1: Seq<u8>, a2: Seq<u8>, d2: Seq<u8>, c: u8)
    requires
        a1 + d1 == a2 + d2,
        a1.len() > 0 && a1.last() == c,
        a2.len() > 0 && a2.last() == c,
        forall|i: int| 0 <= i < d1.len() ==> d1[i] != c,
        forall|i: int| 0 <= i < d2.len() ==> d2[i] != c,
    ensures
        a1 == a2,
        d1 == d2,
{
    let s = a1 + d1;
    let t = a2 + d2;
    assert(s.len() == t.len());
    assert(s.len() == a1.len() + d1.len());
    assert(t.len() == a2.len() + d2.len());
    if d1.len() < d2.len() {
        let k = a1.len() - 1;
        assert(s[k] == a1[k]);
        assert(a2.len() <= k);
        assert(t[k] == d2[k - a2.len()]);
    } else if d2.len() < d1.len() {
        let k = a2.len() - 1;
        assert(t[k] == a2[k]);
        assert(a1.len() <= k);
        assert(s[k] == d1[k - a1.len()]);
    }
    assert(a1 =~= s.subrange(0, a1.len() as int));
    assert(a2 =~= t.subrange(0, a2.len() as int));
    assert(d1 =~= s.subrange(a1.len() as int, s.len() as int));
    assert(d2 =~= t.subrange(a2.len() as int, t.len() as int));
}

/// The `hex` crate's error type.
#[verifier::external_type_specification]
#[verifier::external_body]
pub struct ExFromHexError(hex::FromHexError);

/// Lowercase hexadecimal rendering of bytes.
///
/// Trusted: calls `hex::encode`, which writes each byte as two lowercase
/// hexadecimal digits, most significant first.
#[verifier::external_body]
pub(crate) fn hex_encode(data: &[u8]) -> (r: String)
    ensures
        r@ == chars_of(hex_lower(data@)),
{
    hex::encode(data)
}

/// Hexadecimal decoding of the bytes of a string.
///
/// Trusted: calls `hex::decode`, which rejects an odd length and any byte that
/// is not a hexadecimal digit (either case), and otherwise turns each pair of
/// digits into one byte.
#[verifier::external_body]
pub(crate) fn hex_decode(s: &str) -> (r: Result<Vec<u8>, hex::FromHexError>)
    ensures
        match r {
            Ok(v) => hex_decode_spec(s.spec_bytes()) == Some(v@),
            Err(_) => hex_decode_spec(s.spec_bytes()) is None,
        },
{
    hex::decode(s)
}

/// Std's error type for integer parsing.
#[verifier::external_type_specification]
#[verifier::external_body]
pub struct ExParseIntError(core::num::ParseIntError);

/// Parses a byte from hexadecimal digits.
///
/// Trusted: calls `u8::from_str_radix(s, 16)`, which accepts an optional `+`
/// followed by at least one hexadecimal digit (either case) whose value fits in
/// a `u8`, and rejects everything else.
#[verifier::external_body]
pub(crate) fn parse_u8_hex(s: &str) -> (r: Result<u8, core::num::ParseIntError>)
    ensures
        match r {
            Ok(v) => parse_u8_hex_spec(s.spec_bytes()) == Some(v),
            Err(_) => parse_u8_hex_spec(s.spec_bytes()) is None,
        },
{
    u8::from_str_radix(s, 16)
}

} // verus!
