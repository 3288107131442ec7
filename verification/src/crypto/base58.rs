//! The base58 text form of byte strings (Bitcoin alphabet), as the `bs58`
//! crate writes and reads it.
use vstd::prelude::*;
use crate::text::{all_ascii, chars_of};
use crate::uint::be_value;

verus! {

/// The character byte of a base58 digit: the Bitcoin alphabet is the digits
/// `1`-`9`, then the letters without `I`, `O` and `l`.
pub open spec fn base58_char(d: nat) -> u8 {
    if d < 9 {
        (49 + d) as u8
    } else if d < 17 {
        (56 + d) as u8
    } else if d < 22 {
        (57 + d) as u8
    } else if d < 33 {
        (58 + d) as u8
    } else if d < 44 {
        (64 + d) as u8
    } else {
        (65 + d) as u8
    }
}

/// The digit of a base58 character byte; `None` for a byte outside the alphabet.
pub open spec fn base58_value(c: u8) -> Option<nat> {
    if 49 <= c <= 57 {
        Some((c - 49) as nat)
    } else if 65 <= c <= 72 {
        Some((c - 56) as nat)
    } else if 74 <= c <= 78 {
        Some((c - 57) as nat)
    } else if 80 <= c <= 90 {
        Some((c - 58) as nat)
    } else if 97 <= c <= 107 {
        Some((c - 64) as nat)
    } else if 109 <= c <= 122 {
        Some((c - 65) as nat)
    } else {
        None
    }
}

/// How many bytes at the start of `b` equal `x`.
pub open spec fn leading_count(b: Seq<u8>, x: u8) -> nat
    decreases b.len(),
{
    if b.len() > 0 && b[0] == x {
        1 + leading_count(b.drop_first(), x)
    } else {
        0
    }
}

/// The base58 digit characters of a number, most significant first; none for zero.
pub open spec fn base58_digits(n: nat) -> Seq<u8>
    decreases n,
{
    if n == 0 {
        Seq::empty()
    } else {
        base58_digits(n / 58).push(base58_char(n % 58))
    }
}

/// The number that base58 characters stand for, most significant first.
pub open spec fn base58_text_value(t: Seq<u8>) -> nat
    decreases t.len(),
{
    if t.len() == 0 {
        0
    } else {
        base58_text_value(t.drop_last()) * 58 + base58_value(t.last()).unwrap_or(0)
    }
}

/// The fewest big-endian bytes of a number; none for zero.
pub open spec fn be_min_bytes(n: nat) -> Seq<u8>
    decreases n,
{
    if n == 0 {
        Seq::empty()
    } else {
        be_min_bytes(n / 256).push((n % 256) as u8)
    }
}

/// `n` copies of the byte `x`.
pub open spec fn repeat_byte(n: nat, x: u8) -> Seq<u8> {
    Seq::new(n, |i: int| x)
}

/// The base58 text of bytes: a `1` for each leading zero byte, then the
/// base58 digits of the bytes read as a big-endian number.
pub open spec fn base58_encode_spec(data: Seq<u8>) -> Seq<char> {
    chars_of(repeat_byte(leading_count(data, 0), 49u8) + base58_digits(be_value(data)))
}

/// What base58 text decodes to: `None` when a byte is outside the alphabet,
/// otherwise a zero byte for each leading `1`, then the fewest big-endian
/// bytes of the number the text stands for.
pub open spec fn base58_decode_spec(text: Seq<u8>) -> Option<Seq<u8>> {
    if forall|i: int| 0 <= i < text.len() ==> (#[trigger] base58_value(text[i])) is Some {
        Some(repeat_byte(leading_count(text, 49u8), 0u8) + be_min_bytes(base58_text_value(text)))
    } else {
        None
    }
}

proof fn lemma_base58_char_value(d: nat)
    requires
        d < 58,
    ensures
        base58_value(base58_char(d)) == Some(d),
        base58_char(d) < 128,
        base58_char(d) == 49u8 <==> d == 0,
{
}

/// The digits of a number are base58 characters that stand for it, and the
/// first of them is not `1`.
proof fn lemma_digits(n: nat)
    ensures
        forall|i: int| 0 <= i < base58_digits(n).len() ==> (#[trigger] base58_value(base58_digits(n)[i])) is Some
            && base58_digits(n)[i] < 128,
        base58_text_value(base58_digits(n)) == n,
        n > 0 ==> base58_digits(n).len() > 0 && base58_digits(n)[0] != 49u8,
    decreases n,
{
    if n > 0 {
        let q = n / 58;
        lemma_digits(q);
        lemma_base58_char_value(n % 58);
        let d = base58_digits(n);
        let p = base58_digits(q);
        assert(d.drop_last() =~= p);
        assert forall|i: int| 0 <= i < d.len() implies (#[trigger] base58_value(d[i])) is Some && d[i] < 128 by {
            if i < p.len() {
                assert(d[i] == p[i]);
            }
        }
        vstd::arithmetic::div_mod::lemma_fundamental_div_mod(n as int, 58);
        if q > 0 {
            assert(d[0] == p[0]);
        } else {
            assert(p =~= Seq::<u8>::empty());
        }
    }
}

/// Leading `1` characters add nothing to the number a text stands for.
proof fn lemma_text_value_ones(z: nat, s: Seq<u8>)
    ensures
        base58_text_value(repeat_byte(z, 49u8) + s) == base58_text_value(s),
    decreases s.len(), z,
{
    if s.len() > 0 {
        assert((repeat_byte(z, 49u8) + s).drop_last() =~= repeat_byte(z, 49u8) + s.drop_last());
        lemma_text_value_ones(z, s.drop_last());
    } else if z > 0 {
        assert(repeat_byte(z, 49u8) + s =~= repeat_byte(z, 49u8));
        assert(repeat_byte(z, 49u8).drop_last() =~= repeat_byte((z - 1) as nat, 49u8) + s);
        lemma_text_value_ones((z - 1) as nat, s);
    } else {
        assert(repeat_byte(z, 49u8) + s =~= s);
    }
}

/// Leading zero bytes add nothing to the big-endian value of bytes.
proof fn lemma_be_value_zeros(z: nat, s: Seq<u8>)
    ensures
        be_value(repeat_byte(z, 0u8) + s) == be_value(s),
    decreases s.len(), z,
{
    if s.len() > 0 {
        assert((repeat_byte(z, 0u8) + s).drop_last() =~= repeat_byte(z, 0u8) + s.drop_last());
        lemma_be_value_zeros(z, s.drop_last());
    } else if z > 0 {
        assert(repeat_byte(z, 0u8) + s =~= repeat_byte(z, 0u8));
        assert(repeat_byte(z, 0u8).drop_last() =~= repeat_byte((z - 1) as nat, 0u8) + s);
        lemma_be_value_zeros((z - 1) as nat, s);
    } else {
        assert(repeat_byte(z, 0u8) + s =~= s);
    }
}

/// The leading run of a byte counts once more for each copy put in front.
proof fn lemma_leading_count_prefix(z: nat, x: u8, s: Seq<u8>)
    ensures
        leading_count(repeat_byte(z, x) + s, x) == z + leading_count(s, x),
    decreases z,
{
    if z > 0 {
        assert((repeat_byte(z, x) + s).drop_first() =~= repeat_byte((z - 1) as nat, x) + s);
        lemma_leading_count_prefix((z - 1) as nat, x, s);
    } else {
        assert(repeat_byte(z, x) + s =~= s);
    }
}

/// Bytes are their leading zero bytes followed by a rest that does not start
/// with zero.
proof fn lemma_split_leading_zeros(b: Seq<u8>)
    ensures
        leading_count(b, 0u8) <= b.len(),
        b == repeat_byte(leading_count(b, 0u8), 0u8) + b.skip(leading_count(b, 0u8) as int),
        b.skip(leading_count(b, 0u8) as int).len() == 0 || b.skip(leading_count(b, 0u8) as int)[0] != 0u8,
    decreases b.len(),
{
    if b.len() > 0 && b[0] == 0u8 {
        let t = b.drop_first();
        lemma_split_leading_zeros(t);
        let z = leading_count(t, 0u8);
        assert(b.skip(z as int + 1) =~= t.skip(z as int));
        assert forall|i: int| 0 <= i < z + 1 implies b[i] == 0u8 by {
            if i > 0 {
                assert(b[i] == t[i - 1]);
                assert((repeat_byte(z, 0u8) + t.skip(z as int))[i - 1] == 0u8);
            }
        }
        assert(b =~= repeat_byte(z + 1, 0u8) + b.skip(z as int + 1));
    } else {
        assert(b =~= repeat_byte(0, 0u8) + b.skip(0));
    }
}

/// The fewest big-endian bytes of the value of bytes that do not start with
/// zero are those bytes.
proof fn lemma_be_min_bytes_value(r: Seq<u8>)
    requires
        r.len() == 0 || r[0] != 0u8,
    ensures
        be_min_bytes(be_value(r)) == r,
    decreases r.len(),
{
    if r.len() == 0 {
        assert(be_min_bytes(0) =~= r);
    } else {
        let p = r.drop_last();
        let n = be_value(r);
        if p.len() > 0 {
            assert(p[0] == r[0]);
        }
        lemma_be_min_bytes_value(p);
        vstd::arithmetic::div_mod::lemma_fundamental_div_mod_converse(
            n as int,
            256,
            be_value(p) as int,
            r.last() as int,
        );
        if p.len() == 0 {
            assert(be_value(p) == 0);
            assert(n == r[0]);
        } else {
            assert(be_value(p) != 0);
        }
        assert(r =~= p.push(r.last()));
    }
}

/// Decoding the base58 text of bytes gives the bytes back.
pub proof fn lemma_base58_roundtrip(data: Seq<u8>)
    ensures
        base58_decode_spec(vstd::utf8::encode_utf8(base58_encode_spec(data))) == Some(data),
{
    let z = leading_count(data, 0u8);
    let v = be_value(data);
    let ones = repeat_byte(z, 49u8);
    let digits = base58_digits(v);
    let t = ones + digits;
    lemma_digits(v);
    lemma_base58_char_value(0);
    assert(all_ascii(t)) by {
        assert forall|i: int| 0 <= i < t.len() implies #[trigger] t[i] < 128 by {
            if i >= ones.len() {
                assert(base58_value(digits[i - ones.len()]) is Some);
                assert(t[i] == digits[i - ones.len()]);
            } else {
                assert(t[i] == ones[i]);
            }
        }
    }
    crate::text::lemma_chars_of_ascii(t);
    let chars = chars_of(t);
    vstd::utf8::is_ascii_chars_encode_utf8(chars);
    assert(vstd::utf8::encode_utf8(chars) =~= t);
    assert forall|i: int| 0 <= i < t.len() implies (#[trigger] base58_value(t[i])) is Some by {
        if i >= ones.len() {
            assert(t[i] == digits[i - ones.len()]);
        } else {
            assert(t[i] == ones[i]);
        }
    }
    lemma_leading_count_prefix(z, 49u8, digits);
    if v > 0 {
        assert(leading_count(digits, 49u8) == 0);
    } else {
        assert(digits =~= Seq::<u8>::empty());
    }
    lemma_text_value_ones(z, digits);
    lemma_split_leading_zeros(data);
    let rest = data.skip(z as int);
    lemma_be_value_zeros(z, rest);
    lemma_be_min_bytes_value(rest);
}

} // verus!
