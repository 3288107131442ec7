//! Transactions: amounts in wei, the signable message of a transaction, signing
//! and the validity checks of a signed transaction.
use vstd::prelude::*;
use vstd::string::StringSliceAdditionalSpecFns;
use crate::crypto::address::{Address, address_bytes_spec};
use crate::crypto::base58::base58_encode_spec;
use crate::crypto::algorithm::SignatureAlgorithm;
use crate::crypto::digest::{sha256, sha256_spec};
use crate::crypto::manager::SignatureManager;
use crate::crypto::schemes::ed25519_scheme::{Ed25519Scheme, ed25519_key_valid_spec, ed25519_public_spec};
use crate::crypto::signature::{
    PublicKey, SecretKey, Signature, SignatureError, SignatureScheme, TaggedBytes,
};
use crate::text::{
    all_hex_digits, ascii_of, chars_of, decimal, decimal_padded, decimal_signed, hex_digits_value,
    hex_encode, hex_lower, hex_number, push_ascii_bytes, push_ascii_str, push_bytes, push_decimal,
    push_decimal_signed,
};
use crate::uint::{
    U256, parse_u256_hex_spec, u256_add, u256_bound, u256_from_str_radix16, u256_low_u128,
    u256_lower_hex, u256_mul,
};

verus! {

broadcast use vstd::string::group_string_axioms;

pub const DECIMAL_PLACES: u32 = 18;

/// Wei in one coin: 10^18.
pub const WEI_PER_COIN: u128 = 1_000_000_000_000_000_000u128;

/// 10^9 wei.
pub const GWEI: u128 = 1_000_000_000u128;

/// 10^6 wei.
pub const MWEI: u128 = 1_000_000u128;

/// 10^3 wei.
pub const KWEI: u128 = 1_000u128;

/// Fee limit of a plain transfer.
pub const FEE_LIMIT: u64 = 21_000;

/// The text of an amount of wei in coins: the low 128 bits of the amount,
/// divided by 10^18, then a point and the remainder in 18 digits.
pub open spec fn format_wei_spec(value: nat) -> Seq<char> {
    let wei = value % 0x1_0000_0000_0000_0000_0000_0000_0000_0000nat;
    chars_of(
        decimal(wei / 1_000_000_000_000_000_000nat) + seq![46u8] + decimal_padded(
            wei % 1_000_000_000_000_000_000nat,
            18,
        ),
    )
}

/// Formats an amount of wei as coins with 18 decimals.
pub fn format_wei(value: U256) -> (r: String)
    ensures
        r@ == format_wei_spec(value@),
{
    let wei = u256_low_u128(&value);
    let coins = wei / WEI_PER_COIN;
    let fraction = wei % WEI_PER_COIN;
    let mut bytes: Vec<u8> = Vec::new();
    push_decimal(&mut bytes, coins);
    bytes.push(46u8);
    let mut digits: Vec<u8> = Vec::new();
    push_decimal(&mut digits, fraction);
    let mut k: usize = digits.len();
    let ghost before = bytes@;
    while k < 18
        invariant
            digits@.len() <= k,
            k <= 18 || k == digits@.len(),
            bytes@ == before + Seq::new((k - digits@.len()) as nat, |i: int| 48u8),
        decreases 18 - k,
    {
        bytes.push(48u8);
        k = k + 1;
        assert(bytes@ =~= before + Seq::new((k - digits@.len()) as nat, |i: int| 48u8));
    }
    push_bytes(&mut bytes, digits.as_slice());
    proof {
        crate::text::lemma_decimal_ascii(coins as nat);
        crate::text::lemma_decimal_ascii(fraction as nat);
        let d = decimal(fraction as nat);
        assert(digits@ == d);
        if d.len() >= 18 {
            assert(bytes@ =~= decimal(coins as nat) + seq![46u8] + decimal_padded(fraction as nat, 18));
        } else {
            assert(bytes@ =~= decimal(coins as nat) + seq![46u8] + decimal_padded(fraction as nat, 18));
        }
        assert(crate::text::all_ascii(bytes@));
    }
    let mut s = String::new();
    push_ascii_bytes(&mut s, bytes.as_slice());
    assert(s@ =~= format_wei_spec(value@));
    s
}

/// The text of an amount of wei is the whole coins of its low 128 bits in
/// decimal, a point, and exactly eighteen digits that read back as the wei
/// below one coin; so the two parts read back give the low 128 bits.
pub proof fn lemma_format_wei_layout(v: nat)
    ensures
        ({
            let s = ascii_of(format_wei_spec(v));
            let w = v % 0x1_0000_0000_0000_0000_0000_0000_0000_0000nat;
            let n = s.len() as int;
            &&& n >= 20
            &&& s[n - 19] == 46u8
            &&& forall|i: int| 0 <= i < n && i != n - 19 ==> 48u8 <= #[trigger] s[i] <= 57u8
            &&& crate::text::decimal_digits_value(s.subrange(n - 18, n)) == w % 1_000_000_000_000_000_000nat
            &&& crate::text::decimal_digits_value(s.subrange(0, n - 19)) == w / 1_000_000_000_000_000_000nat
        }),
{
    let w = v % 0x1_0000_0000_0000_0000_0000_0000_0000_0000nat;
    let c = w / 1_000_000_000_000_000_000nat;
    let f = w % 1_000_000_000_000_000_000nat;
    reveal_with_fuel(crate::text::pow10, 22);
    assert(crate::text::pow10(18) == 1_000_000_000_000_000_000nat);
    assert(crate::text::pow10(21) == 1_000_000_000_000_000_000_000nat);
    assert(c < 1_000_000_000_000_000_000_000nat);
    crate::text::lemma_decimal_padded(f, 18);
    crate::text::lemma_decimal_value(c, 21);
    crate::text::lemma_decimal_ascii(c);
    let d = decimal(c);
    let p = decimal_padded(f, 18);
    let b = d + seq![46u8] + p;
    assert(crate::text::all_ascii(b)) by {
        assert forall|i: int| 0 <= i < b.len() implies #[trigger] b[i] < 128 by {
            if i < d.len() {
                assert(b[i] == d[i]);
            } else if i > d.len() {
                assert(b[i] == p[i - d.len() - 1]);
            }
        }
    }
    crate::text::lemma_chars_of_ascii(b);
    let n = b.len() as int;
    assert(b[n - 19] == 46u8);
    assert forall|i: int| 0 <= i < n && i != n - 19 implies 48u8 <= #[trigger] b[i] <= 57u8 by {
        if i < d.len() {
            assert(b[i] == d[i]);
        } else {
            assert(b[i] == p[i - d.len() - 1]);
        }
    }
    assert(b.subrange(n - 18, n) =~= p);
    assert(b.subrange(0, n - 19) =~= d);
}

/// The hexadecimal text of an amount: `0x`, then its lowercase digits without
/// leading zeros.
pub open spec fn prefixed_hex_spec(value: nat) -> Seq<char> {
    "0x"@ + chars_of(hex_number(value))
}

/// Writes an amount as `0x` and lowercase hexadecimal digits.
pub fn u256_to_prefixed_hex(value: &U256) -> (r: String)
    ensures
        r@ == prefixed_hex_spec(value@),
{
    let digits = u256_lower_hex(value);
    let mut r = String::from_str("0x");
    r.append(digits.as_str());
    r
}

/// Drops every leading `0x`.
pub open spec fn strip_hex_prefixes(b: Seq<u8>) -> Seq<u8>
    decreases b.len(),
{
    if b.len() >= 2 && b[0] == 48u8 && b[1] == 120u8 {
        strip_hex_prefixes(b.skip(2))
    } else {
        b
    }
}

/// The text after its first character, which is ASCII.
fn drop_first_ascii(t: &str) -> (r: &str)
    requires
        t.spec_bytes().len() >= 1,
        t.spec_bytes()[0] < 128,
    ensures
        r.spec_bytes() == t.spec_bytes().drop_first(),
{
    let ghost tb = t.spec_bytes();
    proof {
        vstd::utf8::encode_utf8_valid_utf8(t@);
        if tb.len() == 1 {
            vstd::utf8::is_char_boundary_start_end_of_seq(tb);
        } else {
            reveal_with_fuel(vstd::utf8::is_char_boundary, 2);
            vstd::utf8::is_char_boundary_iff_is_leading_byte(tb, 0);
        }
    }
    let (_first, rest) = t.split_at(1);
    assert(rest.spec_bytes() =~= tb.drop_first());
    rest
}

/// Reads an amount written in hexadecimal: every leading `0x` is dropped, and
/// what is left is parsed as at most 64 hexadecimal digits.
pub fn u256_from_prefixed_hex(s: &str) -> (r: Option<U256>)
    ensures
        match parse_u256_hex_spec(strip_hex_prefixes(s.spec_bytes())) {
            Some(v) => r matches Some(x) && x@ == v,
            None => r is None,
        },
{
    let mut t: &str = s;
    loop
        invariant
            strip_hex_prefixes(t.spec_bytes()) == strip_hex_prefixes(s.spec_bytes()),
        ensures
            strip_hex_prefixes(t.spec_bytes()) == strip_hex_prefixes(s.spec_bytes()),
            strip_hex_prefixes(t.spec_bytes()) == t.spec_bytes(),
        decreases t.spec_bytes().len(),
    {
        let b = t.as_bytes();
        if b.len() >= 2 && b[0] == 48u8 && b[1] == 120u8 {
            let ghost tb = t.spec_bytes();
            let rest = drop_first_ascii(t);
            let rest2 = drop_first_ascii(rest);
            assert(rest2.spec_bytes() =~= tb.skip(2));
            t = rest2;
        } else {
            break;
        }
    }
    u256_from_str_radix16(t)
}

/// The abstract value of an unsigned transaction.
pub struct UnsignedTransactionView {
    pub from: Seq<u8>,
    pub to: Seq<u8>,
    pub value: nat,
    pub nonce: u64,
    pub data: Seq<u8>,
    pub fee_limit: u64,
    pub fee_price: nat,
    pub timestamp: i64,
}

/// The JSON array of a byte string: its bytes in decimal, separated by commas.
pub open spec fn json_byte_items(b: Seq<u8>) -> Seq<u8>
    decreases b.len(),
{
    if b.len() == 0 {
        Seq::empty()
    } else if b.len() == 1 {
        decimal(b[0] as nat)
    } else {
        json_byte_items(b.drop_last()) + seq![44u8] + decimal(b.last() as nat)
    }
}

pub open spec fn json_bytes(b: Seq<u8>) -> Seq<u8> {
    seq![91u8] + json_byte_items(b) + seq![93u8]
}

/// The JSON string of an amount: `"0x..."`.
pub open spec fn json_amount(v: nat) -> Seq<u8> {
    seq![34u8] + ascii_of("0x"@) + hex_number(v) + seq![34u8]
}

/// The first members of the JSON object of an unsigned transaction.
pub open spec fn members_head_json(from: Seq<u8>, to: Seq<u8>, value: nat, nonce: u64) -> Seq<u8> {
    ascii_of("\"from\":"@) + json_bytes(from) + ascii_of(",\"to\":"@) + json_bytes(to) + ascii_of(
        ",\"value\":"@,
    ) + json_amount(value) + ascii_of(",\"nonce\":"@) + decimal(nonce as nat)
}

/// The last members of the JSON object of an unsigned transaction.
pub open spec fn members_tail_json(data: Seq<u8>, fee_limit: u64, fee_price: nat, timestamp: i64) -> Seq<u8> {
    ascii_of(",\"data\":"@) + json_bytes(data) + ascii_of(",\"fee_limit\":"@) + decimal(
        fee_limit as nat,
    ) + ascii_of(",\"fee_price\":"@) + json_amount(fee_price) + ascii_of(",\"timestamp\":"@)
        + decimal_signed(timestamp as int)
}

/// The members of the JSON object of an unsigned transaction, in field order.
pub open spec fn unsigned_members_json(t: UnsignedTransactionView) -> Seq<u8> {
    members_head_json(t.from, t.to, t.value, t.nonce) + members_tail_json(
        t.data,
        t.fee_limit,
        t.fee_price,
        t.timestamp,
    )
}

/// The signable message of a transaction: its compact JSON object.
pub open spec fn signable_bytes_spec(t: UnsignedTransactionView) -> Seq<u8> {
    seq![123u8] + unsigned_members_json(t) + seq![125u8]
}

/// The JSON object of a key or signature: its algorithm's variant name and its bytes.
pub open spec fn tagged_json(k: TaggedBytes) -> Seq<u8> {
    ascii_of("{\"algorithm\":\""@) + ascii_of(k.algorithm.spec_variant_name()) + ascii_of(
        "\",\"bytes\":"@,
    ) + json_bytes(k.bytes) + seq![125u8]
}

/// Appends the JSON array of a byte string.
fn push_json_bytes(out: &mut Vec<u8>, b: &[u8])
    ensures
        final(out)@ == old(out)@ + json_bytes(b@),
{
    let ghost start = out@;
    out.push(91u8);
    let mut i: usize = 0;
    while i < b.len()
        invariant
            0 <= i <= b.len(),
            out@ == start + seq![91u8] + json_byte_items(b@.subrange(0, i as int)),
        decreases b.len() - i,
    {
        let ghost prev = out@;
        if i > 0 {
            out.push(44u8);
        }
        push_decimal(out, b[i] as u128);
        proof {
            let s = b@.subrange(0, i + 1);
            assert(s.drop_last() =~= b@.subrange(0, i as int));
            if i == 0 {
                assert(json_byte_items(b@.subrange(0, 0)) =~= Seq::<u8>::empty());
            }
        }
        i = i + 1;
        assert(out@ =~= start + seq![91u8] + json_byte_items(b@.subrange(0, i as int)));
    }
    out.push(93u8);
    assert(b@.subrange(0, b@.len() as int) =~= b@);
    assert(out@ =~= start + json_bytes(b@));
}

/// Appends the JSON string of an amount.
fn push_json_amount(out: &mut Vec<u8>, v: &U256)
    ensures
        final(out)@ == old(out)@ + json_amount(v@),
{
    let hex = u256_lower_hex(v);
    proof {
        crate::text::lemma_hex_number_ascii(v@);
        crate::text::lemma_chars_of_ascii(hex_number(v@));
    }
    let digits = crate::text::ascii_string_bytes(&hex);
    out.push(34u8);
    proof {
        reveal_strlit("0x");
    }
    push_ascii_str(out, "0x");
    push_bytes(out, digits.as_slice());
    out.push(34u8);
    assert(ascii_of(chars_of(hex_number(v@))) == hex_number(v@));
    assert(final(out)@ =~= old(out)@ + json_amount(v@));
}

#[derive(Debug)]
pub struct UnsignedTransaction {
    pub from: Address,
    pub to: Address,
    pub value: U256,
    pub nonce: u64,
    pub data: Vec<u8>,
    pub fee_limit: u64,
    pub fee_price: U256,
    pub timestamp: i64,
}

impl View for UnsignedTransaction {
    type V = UnsignedTransactionView;

    open spec fn view(&self) -> UnsignedTransactionView {
        UnsignedTransactionView {
            from: self.from@,
            to: self.to@,
            value: self.value@,
            nonce: self.nonce,
            data: self.data@,
            fee_limit: self.fee_limit,
            fee_price: self.fee_price@,
            timestamp: self.timestamp,
        }
    }
}

/// The current Unix time in seconds.
///
/// Trusted: calls `chrono::Utc::now().timestamp()`. Nothing is stated of the
/// value: it is the clock's.
#[verifier::external_body]
fn unix_time_now() -> (r: i64) {
    chrono::Utc::now().timestamp()
}

/// Appends the first members of the JSON object of an unsigned transaction.
fn push_members_head(out: &mut Vec<u8>, from: &Address, to: &Address, value: &U256, nonce: u64)
    ensures
        final(out)@ == old(out)@ + members_head_json(from@, to@, value@, nonce),
{
    let ghost start = out@;
    proof {
        reveal_strlit("\"from\":");
        reveal_strlit(",\"to\":");
        reveal_strlit(",\"value\":");
        reveal_strlit(",\"nonce\":");
    }
    push_ascii_str(out, "\"from\":");
    push_json_bytes(out, from.as_bytes());
    let ghost acc = ascii_of("\"from\":"@) + json_bytes(from@);
    assert(out@ =~= start + acc);
    push_ascii_str(out, ",\"to\":");
    push_json_bytes(out, to.as_bytes());
    let ghost acc2 = acc + ascii_of(",\"to\":"@) + json_bytes(to@);
    assert(out@ =~= start + acc2);
    push_ascii_str(out, ",\"value\":");
    push_json_amount(out, value);
    let ghost acc3 = acc2 + ascii_of(",\"value\":"@) + json_amount(value@);
    assert(out@ =~= start + acc3);
    push_ascii_str(out, ",\"nonce\":");
    push_decimal(out, nonce as u128);
    let ghost acc4 = acc3 + ascii_of(",\"nonce\":"@) + decimal(nonce as nat);
    assert(out@ =~= start + acc4);
}

/// Appends the last members of the JSON object of an unsigned transaction.
fn push_members_tail(out: &mut Vec<u8>, data: &[u8], fee_limit: u64, fee_price: &U256, timestamp: i64)
    ensures
        final(out)@ == old(out)@ + members_tail_json(data@, fee_limit, fee_price@, timestamp),
{
    let ghost start = out@;
    proof {
        reveal_strlit(",\"data\":");
        reveal_strlit(",\"fee_limit\":");
        reveal_strlit(",\"fee_price\":");
        reveal_strlit(",\"timestamp\":");
    }
    push_ascii_str(out, ",\"data\":");
    push_json_bytes(out, data);
    let ghost acc = ascii_of(",\"data\":"@) + json_bytes(data@);
    assert(out@ =~= start + acc);
    push_ascii_str(out, ",\"fee_limit\":");
    push_decimal(out, fee_limit as u128);
    let ghost acc2 = acc + ascii_of(",\"fee_limit\":"@) + decimal(fee_limit as nat);
    assert(out@ =~= start + acc2);
    push_ascii_str(out, ",\"fee_price\":");
    push_json_amount(out, fee_price);
    let ghost acc3 = acc2 + ascii_of(",\"fee_price\":"@) + json_amount(fee_price@);
    assert(out@ =~= start + acc3);
    push_ascii_str(out, ",\"timestamp\":");
    push_decimal_signed(out, timestamp);
    let ghost acc4 = acc3 + ascii_of(",\"timestamp\":"@) + decimal_signed(timestamp as int);
    assert(out@ =~= start + acc4);
}

/// Appends the members of the JSON object of an unsigned transaction.
fn push_unsigned_members(
    out: &mut Vec<u8>,
    from: &Address,
    to: &Address,
    value: &U256,
    nonce: u64,
    data: &[u8],
    fee_limit: u64,
    fee_price: &U256,
    timestamp: i64,
)
    ensures
        final(out)@ == old(out)@ + unsigned_members_json(
            UnsignedTransactionView {
                from: from@,
                to: to@,
                value: value@,
                nonce,
                data: data@,
                fee_limit,
                fee_price: fee_price@,
                timestamp,
            },
        ),
{
    let ghost start = out@;
    push_members_head(out, from, to, value, nonce);
    push_members_tail(out, data, fee_limit, fee_price, timestamp);
    assert(out@ =~= start + (members_head_json(from@, to@, value@, nonce) + members_tail_json(
        data@,
        fee_limit,
        fee_price@,
        timestamp,
    )));
}

/// Appends the JSON object of a key or signature.
fn push_tagged_json(out: &mut Vec<u8>, algorithm: SignatureAlgorithm, bytes: &[u8])
    ensures
        final(out)@ == old(out)@ + tagged_json(TaggedBytes { algorithm, bytes: bytes@ }),
{
    let ghost start = out@;
    let name: &str = match algorithm {
        SignatureAlgorithm::Ed25519 => "Ed25519",
        SignatureAlgorithm::MlDsa65 => "MlDsa65",
        SignatureAlgorithm::MlDsa87 => "MlDsa87",
        SignatureAlgorithm::SlhDsaShake128f => "SlhDsaShake128f",
        SignatureAlgorithm::SlhDsaShake256f => "SlhDsaShake256f",
        SignatureAlgorithm::HybridEd25519MlDsa65 => "HybridEd25519MlDsa65",
        SignatureAlgorithm::HybridEd25519SlhDsa128f => "HybridEd25519SlhDsa128f",
    };
    proof {
        reveal_strlit("{\"algorithm\":\"");
        reveal_strlit("\",\"bytes\":");
        reveal_strlit("Ed25519");
        reveal_strlit("MlDsa65");
        reveal_strlit("MlDsa87");
        reveal_strlit("SlhDsaShake128f");
        reveal_strlit("SlhDsaShake256f");
        reveal_strlit("HybridEd25519MlDsa65");
        reveal_strlit("HybridEd25519SlhDsa128f");
        assert(name@ == algorithm.spec_variant_name());
    }
    push_ascii_str(out, "{\"algorithm\":\"");
    push_ascii_str(out, name);
    push_ascii_str(out, "\",\"bytes\":");
    push_json_bytes(out, bytes);
    out.push(125u8);
    assert(final(out)@ =~= start + tagged_json(TaggedBytes { algorithm, bytes: bytes@ }));
}

impl UnsignedTransaction {
    /// A transfer stamped with the current time.
    pub fn new_transfer(from: Address, to: Address, value: U256, nonce: u64, fee_price: U256) -> (r:
        UnsignedTransaction)
        ensures
            r.from@ == from@,
            r.to@ == to@,
            r.value@ == value@,
            r.nonce == nonce,
            r.data@.len() == 0,
            r.fee_limit == FEE_LIMIT,
            r.fee_price@ == fee_price@,
    {
        let timestamp = unix_time_now();
        Self::new_transfer_at(from, to, value, nonce, fee_price, timestamp)
    }

    /// A transfer stamped with `timestamp`.
    pub fn new_transfer_at(
        from: Address,
        to: Address,
        value: U256,
        nonce: u64,
        fee_price: U256,
        timestamp: i64,
    ) -> (r: UnsignedTransaction)
        ensures
            r@ == (UnsignedTransactionView {
                from: from@,
                to: to@,
                value: value@,
                nonce,
                data: Seq::empty(),
                fee_limit: FEE_LIMIT,
                fee_price: fee_price@,
                timestamp,
            }),
    {
        let r = UnsignedTransaction {
            from,
            to,
            value,
            nonce,
            data: Vec::new(),
            fee_limit: FEE_LIMIT,
            fee_price,
            timestamp,
        };
        assert(r@.data =~= Seq::<u8>::empty());
        r
    }

    /// A contract call stamped with the current time.
    pub fn new_contract_call(
        from: Address,
        to: Address,
        value: U256,
        nonce: u64,
        data: Vec<u8>,
        fee_limit: u64,
        fee_price: U256,
    ) -> (r: UnsignedTransaction)
        ensures
            r.from@ == from@,
            r.to@ == to@,
            r.value@ == value@,
            r.nonce == nonce,
            r.data@ == data@,
            r.fee_limit == fee_limit,
            r.fee_price@ == fee_price@,
    {
        let timestamp = unix_time_now();
        Self::new_contract_call_at(from, to, value, nonce, data, fee_limit, fee_price, timestamp)
    }

    /// A contract call stamped with `timestamp`.
    pub fn new_contract_call_at(
        from: Address,
        to: Address,
        value: U256,
        nonce: u64,
        data: Vec<u8>,
        fee_limit: u64,
        fee_price: U256,
        timestamp: i64,
    ) -> (r: UnsignedTransaction)
        ensures
            r@ == (UnsignedTransactionView {
                from: from@,
                to: to@,
                value: value@,
                nonce,
                data: data@,
                fee_limit,
                fee_price: fee_price@,
                timestamp,
            }),
    {
        UnsignedTransaction { from, to, value, nonce, data, fee_limit, fee_price, timestamp }
    }

    /// The message that is signed: the transaction's compact JSON object.
    pub fn to_signable_bytes(&self) -> (r: Vec<u8>)
        ensures
            r@ == signable_bytes_spec(self@),
    {
        let mut out: Vec<u8> = Vec::new();
        out.push(123u8);
        push_unsigned_members(
            &mut out,
            &self.from,
            &self.to,
            &self.value,
            self.nonce,
            self.data.as_slice(),
            self.fee_limit,
            &self.fee_price,
            self.timestamp,
        );
        out.push(125u8);
        assert(out@ =~= signable_bytes_spec(self@));
        out
    }

    /// Signs the transaction's message with `secret_key` through `manager`, and
    /// attaches the signature and `public_key`.
    pub fn sign<S: SignatureScheme>(
        self,
        secret_key: &SecretKey,
        public_key: &PublicKey,
        manager: &SignatureManager<S>,
    ) -> (r: Result<Transaction, TransactionError>)
        ensures
            exists|signed: Result<Signature, SignatureError>|
                #![trigger manager.sign_post(signable_bytes_spec(self@), secret_key@, signed)]
                manager.sign_post(signable_bytes_spec(self@), secret_key@, signed) && match signed {
                    Ok(sig) => r matches Ok(tx) && tx@ == (TransactionView {
                        unsigned: self@,
                        signature: sig@,
                        public_key: public_key@,
                    }),
                    Err(e) => r matches Err(TransactionError::SigningFailed(m)) && m@
                        == e.spec_message(),
                },
    {
        let message = self.to_signable_bytes();
        let signed = manager.sign(message.as_slice(), secret_key);
        let ghost g = signed;
        match signed {
            Ok(signature) => {
                let tx = Transaction {
                    from: self.from,
                    to: self.to,
                    value: self.value,
                    nonce: self.nonce,
                    data: self.data,
                    fee_limit: self.fee_limit,
                    fee_price: self.fee_price,
                    timestamp: self.timestamp,
                    signature,
                    public_key: public_key.duplicate(),
                };
                Ok(tx)
            },
            Err(e) => Err(TransactionError::SigningFailed(e.to_string())),
        }
    }
}

#[derive(Debug)]
pub enum TransactionError {
    InvalidSignature,
    InvalidPublicKey,
    AddressMismatch { signature_addr: String, from_addr: String },
    InvalidNonce { expected: u64, actual: u64 },
    InsufficientBalance { required: String, available: String },
    Expired { timestamp: i64 },
    InvalidValue(String),
    SigningFailed(String),
    OutOfGas,
}

/// The abstract value of a signed transaction.
pub struct TransactionView {
    pub unsigned: UnsignedTransactionView,
    pub signature: TaggedBytes,
    pub public_key: TaggedBytes,
}

/// The JSON object of a signed transaction, which its hash is taken of.
pub open spec fn transaction_json(t: TransactionView) -> Seq<u8> {
    seq![123u8] + unsigned_members_json(t.unsigned) + ascii_of(",\"signature\":"@) + tagged_json(
        t.signature,
    ) + ascii_of(",\"public_key\":"@) + tagged_json(t.public_key) + seq![125u8]
}

/// How the checks of a transaction end, once its signature was checked.
pub enum VerifyOutcome {
    Valid,
    BadSignature,
    BadPublicKey,
    AddressMismatch { derived: Seq<u8> },
    NoValueNoData,
    ZeroFeeLimit,
    Expired,
}

/// The checks of a transaction, in order: the signature must have verified,
/// the sender address must have a known network byte and be the address of
/// the public key on that network, the transaction must carry a value or
/// data, its fee limit must not be zero, and its timestamp must not be more
/// than 300 seconds after `now`.
pub open spec fn verify_outcome(t: TransactionView, signature_check: Result<bool, SignatureError>, now: i64) -> VerifyOutcome {
    let from = t.unsigned.from;
    let derived = address_bytes_spec(from[0], t.public_key.algorithm.spec_id(), t.public_key.bytes);
    if signature_check != Ok::<bool, SignatureError>(true) {
        VerifyOutcome::BadSignature
    } else if from[0] != 0x00 && from[0] != 0x6F {
        VerifyOutcome::BadPublicKey
    } else if derived != from {
        VerifyOutcome::AddressMismatch { derived }
    } else if t.unsigned.value == 0 && t.unsigned.data.len() == 0 {
        VerifyOutcome::NoValueNoData
    } else if t.unsigned.fee_limit == 0 {
        VerifyOutcome::ZeroFeeLimit
    } else if t.unsigned.timestamp > now + 300 {
        VerifyOutcome::Expired
    } else {
        VerifyOutcome::Valid
    }
}

/// The result that each outcome is reported as.
pub open spec fn reports_outcome(r: Result<(), TransactionError>, o: VerifyOutcome, t: TransactionView) -> bool {
    match o {
        VerifyOutcome::Valid => r is Ok,
        VerifyOutcome::BadSignature => r matches Err(TransactionError::InvalidSignature),
        VerifyOutcome::BadPublicKey => r matches Err(TransactionError::InvalidPublicKey),
        VerifyOutcome::AddressMismatch { derived } => r matches Err(
            TransactionError::AddressMismatch { signature_addr, from_addr },
        ) && signature_addr@ == base58_encode_spec(derived) && from_addr@ == base58_encode_spec(
            t.unsigned.from,
        ),
        VerifyOutcome::NoValueNoData => r matches Err(TransactionError::InvalidValue(m)) && m@
            == "Transaction has no value and no data"@,
        VerifyOutcome::ZeroFeeLimit => r matches Err(TransactionError::InvalidValue(m)) && m@
            == "Fee limit cannot be zero"@,
        VerifyOutcome::Expired => r matches Err(TransactionError::Expired { timestamp }) && timestamp
            == t.unsigned.timestamp,
    }
}

#[derive(Debug)]
pub struct Transaction {
    pub from: Address,
    pub to: Address,
    pub value: U256,
    pub nonce: u64,
    pub data: Vec<u8>,
    pub fee_limit: u64,
    pub fee_price: U256,
    pub timestamp: i64,
    pub signature: Signature,
    pub public_key: PublicKey,
}

impl View for Transaction {
    type V = TransactionView;

    open spec fn view(&self) -> TransactionView {
        TransactionView {
            unsigned: UnsignedTransactionView {
                from: self.from@,
                to: self.to@,
                value: self.value@,
                nonce: self.nonce,
                data: self.data@,
                fee_limit: self.fee_limit,
                fee_price: self.fee_price@,
                timestamp: self.timestamp,
            },
            signature: self.signature@,
            public_key: self.public_key@,
        }
    }
}

impl Transaction {
    /// The most the transaction can cost: its value plus the fee limit times the fee price.
    pub fn max_cost(&self) -> (r: U256)
        requires
            self.value@ + self.fee_limit * self.fee_price@ < u256_bound(),
        ensures
            r@ == self.value@ + self.fee_limit * self.fee_price@,
    {
        let limit = U256::from_u64(self.fee_limit);
        let fee_cost = u256_mul(&limit, &self.fee_price);
        u256_add(&self.value, &fee_cost)
    }

    /// What the transaction costs when `fee_used` fee units were used.
    pub fn actual_cost(&self, fee_used: u64) -> (r: U256)
        requires
            self.value@ + fee_used * self.fee_price@ < u256_bound(),
        ensures
            r@ == self.value@ + fee_used * self.fee_price@,
    {
        let used = U256::from_u64(fee_used);
        let fee_cost = u256_mul(&used, &self.fee_price);
        u256_add(&self.value, &fee_cost)
    }

    /// The message the transaction's signature is over.
    pub fn signable_bytes(&self) -> (r: Vec<u8>)
        ensures
            r@ == signable_bytes_spec(self@.unsigned),
    {
        let mut out: Vec<u8> = Vec::new();
        out.push(123u8);
        push_unsigned_members(
            &mut out,
            &self.from,
            &self.to,
            &self.value,
            self.nonce,
            self.data.as_slice(),
            self.fee_limit,
            &self.fee_price,
            self.timestamp,
        );
        out.push(125u8);
        assert(out@ =~= signable_bytes_spec(self@.unsigned));
        out
    }

    /// The checks that follow the signature check (see `verify_outcome`), given
    /// the result of the signature check and the current time.
    pub fn check_after_signature(&self, signature_check: Result<bool, SignatureError>, now: i64) -> (r:
        Result<(), TransactionError>)
        ensures
            reports_outcome(r, verify_outcome(self@, signature_check, now), self@),
    {
        proof {
            self.from.lemma_len();
        }
        match signature_check {
            Ok(true) => {},
            _ => {
                return Err(TransactionError::InvalidSignature);
            },
        }
        let network = match self.from.network() {
            Ok(n) => n,
            Err(_) => {
                return Err(TransactionError::InvalidPublicKey);
            },
        };
        let derived = match self.public_key.derive_address(network) {
            Ok(a) => a,
            Err(_) => {
                return Err(TransactionError::InvalidPublicKey);
            },
        };
        if !derived.equals(&self.from) {
            return Err(
                TransactionError::AddressMismatch {
                    signature_addr: derived.to_string(),
                    from_addr: self.from.to_string(),
                },
            );
        }
        if self.value.is_zero() && self.data.len() == 0 {
            return Err(
                TransactionError::InvalidValue(String::from_str("Transaction has no value and no data")),
            );
        }
        if self.fee_limit == 0 {
            return Err(TransactionError::InvalidValue(String::from_str("Fee limit cannot be zero")));
        }
        if (self.timestamp as i128) > (now as i128) + 300 {
            return Err(TransactionError::Expired { timestamp: self.timestamp });
        }
        Ok(())
    }

    /// Verifies the signature through `manager`, then makes the other checks
    /// of `verify_outcome` with `now` as the current time.
    pub fn verify_at<S: SignatureScheme>(&self, manager: &SignatureManager<S>, now: i64) -> (r: Result<
        (),
        TransactionError,
    >)
        ensures
            exists|v: Result<bool, SignatureError>|
                #![trigger manager.verify_post(signable_bytes_spec(self@.unsigned), self@.signature, self@.public_key, v)]
                manager.verify_post(
                    signable_bytes_spec(self@.unsigned),
                    self@.signature,
                    self@.public_key,
                    v,
                ) && reports_outcome(r, verify_outcome(self@, v, now), self@),
    {
        let message = self.signable_bytes();
        let v = manager.verify(message.as_slice(), &self.signature, &self.public_key);
        let ghost g = v;
        let r = self.check_after_signature(v, now);
        assert(manager.verify_post(signable_bytes_spec(self@.unsigned), self@.signature, self@.public_key, g));
        r
    }

    /// Verifies the transaction's signature and basic validity at the current time.
    pub fn verify<S: SignatureScheme>(&self, manager: &SignatureManager<S>) -> (r: Result<
        (),
        TransactionError,
    >)
        ensures
            exists|v: Result<bool, SignatureError>, now: i64|
                #![trigger manager.verify_post(signable_bytes_spec(self@.unsigned), self@.signature, self@.public_key, v), verify_outcome(self@, v, now)]
                manager.verify_post(
                    signable_bytes_spec(self@.unsigned),
                    self@.signature,
                    self@.public_key,
                    v,
                ) && reports_outcome(r, verify_outcome(self@, v, now), self@),
    {
        let now = unix_time_now();
        self.verify_at(manager, now)
    }

    /// The transaction's hash: SHA-256 of its JSON object, in lowercase hexadecimal.
    pub fn hash(&self) -> (r: String)
        ensures
            r@ == chars_of(hex_lower(sha256_spec(transaction_json(self@)))),
            r@.len() == 64,
            forall|i: int| 0 <= i < r@.len() ==> ('0' <= #[trigger] r@[i] <= '9' || 'a' <= r@[i] <= 'f'),
    {
        let mut out: Vec<u8> = Vec::new();
        out.push(123u8);
        push_unsigned_members(
            &mut out,
            &self.from,
            &self.to,
            &self.value,
            self.nonce,
            self.data.as_slice(),
            self.fee_limit,
            &self.fee_price,
            self.timestamp,
        );
        proof {
            reveal_strlit(",\"signature\":");
            reveal_strlit(",\"public_key\":");
        }
        push_ascii_str(&mut out, ",\"signature\":");
        push_tagged_json(&mut out, self.signature.algorithm, self.signature.as_bytes());
        push_ascii_str(&mut out, ",\"public_key\":");
        push_tagged_json(&mut out, self.public_key.algorithm, self.public_key.as_bytes());
        out.push(125u8);
        assert(out@ =~= transaction_json(self@));
        let digest = sha256(out.as_slice());
        let r = hex_encode(digest.as_slice());
        proof {
            let h = hex_lower(digest@);
            crate::text::lemma_hex_lower_len(digest@);
            crate::text::lemma_hex_lower_lowercase(digest@);
            assert forall|i: int| 0 <= i < r@.len() implies ('0' <= #[trigger] r@[i] <= '9' || 'a' <= r@[i] <= 'f') by {
                assert(r@[i] == h[i] as char);
            }
        }
        r
    }

    /// A contract call is a transaction carrying data.
    pub fn is_contract_call(&self) -> (r: bool)
        ensures
            r == (self.data@.len() > 0),
    {
        self.data.len() != 0
    }
}

/// Reading the hexadecimal text of an amount gives the amount back.
pub proof fn lemma_prefixed_hex_roundtrip(v: U256)
    ensures
        parse_u256_hex_spec(strip_hex_prefixes(vstd::utf8::encode_utf8(prefixed_hex_spec(v@))))
            == Some(v@),
{
    let digits = hex_number(v@);
    crate::uint::lemma_u256_bound(v);
    crate::text::lemma_pow16_64();
    crate::text::lemma_hex_number_value(v@, 64);
    crate::text::lemma_hex_number_ascii(v@);
    crate::text::lemma_chars_of_ascii(digits);
    let chars = prefixed_hex_spec(v@);
    let b = seq![48u8, 120u8] + digits;
    assert(vstd::utf8::is_ascii_chars(chars)) by {
        reveal_strlit("0x");
        assert forall|i: int| 0 <= i < chars.len() implies '\0' <= #[trigger] chars[i] <= '\u{7f}' by {
            if i >= 2 {
                assert(chars[i] == chars_of(digits)[i - 2]);
            }
        }
    }
    vstd::utf8::is_ascii_chars_encode_utf8(chars);
    assert(vstd::utf8::encode_utf8(chars) =~= b) by {
        reveal_strlit("0x");
    }
    assert(b.skip(2) =~= digits);
    if digits.len() >= 2 {
        assert(crate::text::hex_value(digits[1]) is Some);
    }
    assert(strip_hex_prefixes(digits) == digits);
    assert(strip_hex_prefixes(b) == digits);
}

/// Every byte of a JSON array body is a comma or a decimal digit, and only an
/// empty byte string gives an empty body.
proof fn lemma_json_items_shape(b: Seq<u8>)
    ensures
        forall|i: int| 0 <= i < json_byte_items(b).len() ==> (#[trigger] json_byte_items(b)[i] == 44u8
            || 48u8 <= json_byte_items(b)[i] <= 57u8),
        b.len() > 0 ==> json_byte_items(b).len() > 0,
    decreases b.len(),
{
    if b.len() == 1 {
        crate::text::lemma_decimal_ascii(b[0] as nat);
    } else if b.len() >= 2 {
        lemma_json_items_shape(b.drop_last());
        crate::text::lemma_decimal_ascii(b.last() as nat);
        let p = json_byte_items(b.drop_last());
        let d = decimal(b.last() as nat);
        let s = json_byte_items(b);
        assert forall|i: int| 0 <= i < s.len() implies (#[trigger] s[i] == 44u8 || 48u8 <= s[i] <= 57u8) by {
            if i < p.len() {
                assert(s[i] == p[i]);
            } else if i > p.len() {
                assert(s[i] == d[i - p.len() - 1]);
            }
        }
    }
}

/// Distinct byte strings have distinct JSON array bodies.
proof fn lemma_json_items_injective(b1: Seq<u8>, b2: Seq<u8>)
    requires
        json_byte_items(b1) == json_byte_items(b2),
    ensures
        b1 == b2,
    decreases b1.len(),
{
    lemma_json_items_shape(b1);
    lemma_json_items_shape(b2);
    let s = json_byte_items(b1);
    if b1.len() == 0 || b2.len() == 0 {
        assert(b1.len() == 0 && b2.len() == 0);
        assert(b1 =~= b2);
    } else if b1.len() == 1 && b2.len() == 1 {
        crate::text::lemma_decimal_injective(b1[0] as nat, b2[0] as nat);
        assert(b1 =~= b2);
    } else if b1.len() == 1 {
        crate::text::lemma_decimal_ascii(b1[0] as nat);
        let k = json_byte_items(b2.drop_last()).len() as int;
        assert(json_byte_items(b2)[k] == 44u8);
        assert(s[k] == decimal(b1[0] as nat)[k]);
    } else if b2.len() == 1 {
        crate::text::lemma_decimal_ascii(b2[0] as nat);
        let k = json_byte_items(b1.drop_last()).len() as int;
        assert(s[k] == 44u8);
        assert(json_byte_items(b2)[k] == decimal(b2[0] as nat)[k]);
    } else {
        let d1 = decimal(b1.last() as nat);
        let d2 = decimal(b2.last() as nat);
        crate::text::lemma_decimal_ascii(b1.last() as nat);
        crate::text::lemma_decimal_ascii(b2.last() as nat);
        assert(s =~= json_byte_items(b1.drop_last()).push(44u8) + d1);
        assert(json_byte_items(b2) =~= json_byte_items(b2.drop_last()).push(44u8) + d2);
        crate::text::lemma_split_after_byte(
            json_byte_items(b1.drop_last()).push(44u8),
            d1,
            json_byte_items(b2.drop_last()).push(44u8),
            d2,
            44u8,
        );
        assert(json_byte_items(b1.drop_last()) =~= json_byte_items(b1.drop_last()).push(44u8).drop_last());
        assert(json_byte_items(b2.drop_last()) =~= json_byte_items(b2.drop_last()).push(44u8).drop_last());
        lemma_json_items_injective(b1.drop_last(), b2.drop_last());
        crate::text::lemma_decimal_injective(b1.last() as nat, b2.last() as nat);
        assert(b1 =~= b1.drop_last().push(b1.last()));
        assert(b2 =~= b2.drop_last().push(b2.last()));
    }
}

/// No byte of a JSON array body is an opening bracket.
proof fn lemma_items_no_bracket(b: Seq<u8>)
    ensures
        forall|i: int| 0 <= i < json_byte_items(b).len() ==> json_byte_items(b)[i] != 91u8,
{
    lemma_json_items_shape(b);
    assert forall|i: int| 0 <= i < json_byte_items(b).len() implies json_byte_items(b)[i] != 91u8 by {
        assert(json_byte_items(b)[i] == 44u8 || 48u8 <= json_byte_items(b)[i] <= 57u8);
    }
}

/// No byte of a decimal rendering is a colon.
proof fn lemma_decimal_no_colon(n: nat)
    ensures
        forall|i: int| 0 <= i < decimal(n).len() ==> decimal(n)[i] != 58u8,
{
    crate::text::lemma_decimal_ascii(n);
}

/// No byte of a signed decimal rendering is a colon.
proof fn lemma_decimal_signed_no_colon(n: int)
    ensures
        forall|i: int| 0 <= i < decimal_signed(n).len() ==> decimal_signed(n)[i] != 58u8,
{
    if n < 0 {
        crate::text::lemma_decimal_ascii((-n) as nat);
        let d = decimal((-n) as nat);
        assert forall|i: int| 0 <= i < decimal_signed(n).len() implies decimal_signed(n)[i] != 58u8 by {
            if i > 0 {
                assert(decimal_signed(n)[i] == d[i - 1]);
            }
        }
    } else {
        crate::text::lemma_decimal_ascii(n as nat);
    }
}

/// No byte of a hexadecimal rendering is an `x`.
proof fn lemma_hex_no_x(n: nat)
    ensures
        forall|i: int| 0 <= i < hex_number(n).len() ==> hex_number(n)[i] != 120u8,
{
    crate::text::lemma_hex_number_ascii(n);
    assert forall|i: int| 0 <= i < hex_number(n).len() implies hex_number(n)[i] != 120u8 by {
        assert(crate::text::hex_value(hex_number(n)[i]) is Some);
    }
}

/// The last bytes of the member names and of the `0x` prefix.
proof fn lemma_literal_ends()
    ensures
        ascii_of(",\"to\":"@).len() > 0 && ascii_of(",\"to\":"@).last() == 58u8,
        ascii_of(",\"value\":"@).len() > 0 && ascii_of(",\"value\":"@).last() == 58u8,
        ascii_of(",\"nonce\":"@).len() > 0 && ascii_of(",\"nonce\":"@).last() == 58u8,
        ascii_of(",\"data\":"@).len() > 0 && ascii_of(",\"data\":"@).last() == 58u8,
        ascii_of(",\"fee_limit\":"@).len() > 0 && ascii_of(",\"fee_limit\":"@).last() == 58u8,
        ascii_of(",\"fee_price\":"@).len() > 0 && ascii_of(",\"fee_price\":"@).last() == 58u8,
        ascii_of(",\"timestamp\":"@).len() > 0 && ascii_of(",\"timestamp\":"@).last() == 58u8,
        ascii_of("0x"@).len() > 0 && ascii_of("0x"@).last() == 120u8,
{
    reveal_strlit(",\"to\":");
    reveal_strlit(",\"value\":");
    reveal_strlit(",\"nonce\":");
    reveal_strlit(",\"data\":");
    reveal_strlit(",\"fee_limit\":");
    reveal_strlit(",\"fee_price\":");
    reveal_strlit(",\"timestamp\":");
    reveal_strlit("0x");
}

/// Peels a JSON amount off the end of two equal concatenations: the amounts
/// are equal, and so are the parts before them.
proof fn lemma_peel_amount(p1: Seq<u8>, v1: nat, p2: Seq<u8>, v2: nat)
    requires
        p1 + json_amount(v1) == p2 + json_amount(v2),
    ensures
        p1 == p2,
        v1 == v2,
{
    lemma_literal_ends();
    lemma_hex_no_x(v1);
    lemma_hex_no_x(v2);
    let q = seq![34u8] + ascii_of("0x"@);
    vstd::seq_lib::lemma_concat_associative(p1, q + hex_number(v1), seq![34u8]);
    vstd::seq_lib::lemma_concat_associative(p2, q + hex_number(v2), seq![34u8]);
    crate::text::lemma_drop_common_suffix(p1 + (q + hex_number(v1)), p2 + (q + hex_number(v2)), seq![34u8]);
    vstd::seq_lib::lemma_concat_associative(p1, q, hex_number(v1));
    vstd::seq_lib::lemma_concat_associative(p2, q, hex_number(v2));
    vstd::seq_lib::lemma_append_last(seq![34u8], ascii_of("0x"@));
    vstd::seq_lib::lemma_append_last(p1, q);
    vstd::seq_lib::lemma_append_last(p2, q);
    crate::text::lemma_split_after_byte(p1 + q, hex_number(v1), p2 + q, hex_number(v2), 120u8);
    crate::text::lemma_hex_number_injective(v1, v2);
    crate::text::lemma_drop_common_suffix(p1, p2, q);
}

/// Peels a JSON byte array off the end of two equal concatenations: the byte
/// strings are equal, and so are the parts before them.
proof fn lemma_peel_bytes(p1: Seq<u8>, b1: Seq<u8>, p2: Seq<u8>, b2: Seq<u8>)
    requires
        p1 + json_bytes(b1) == p2 + json_bytes(b2),
    ensures
        p1 == p2,
        b1 == b2,
{
    lemma_items_no_bracket(b1);
    lemma_items_no_bracket(b2);
    let i1 = json_byte_items(b1);
    let i2 = json_byte_items(b2);
    vstd::seq_lib::lemma_concat_associative(p1, seq![91u8] + i1, seq![93u8]);
    vstd::seq_lib::lemma_concat_associative(p2, seq![91u8] + i2, seq![93u8]);
    crate::text::lemma_drop_common_suffix(p1 + (seq![91u8] + i1), p2 + (seq![91u8] + i2), seq![93u8]);
    vstd::seq_lib::lemma_concat_associative(p1, seq![91u8], i1);
    vstd::seq_lib::lemma_concat_associative(p2, seq![91u8], i2);
    vstd::seq_lib::lemma_append_last(p1, seq![91u8]);
    vstd::seq_lib::lemma_append_last(p2, seq![91u8]);
    crate::text::lemma_split_after_byte(p1 + seq![91u8], i1, p2 + seq![91u8], i2, 91u8);
    lemma_json_items_injective(b1, b2);
    crate::text::lemma_drop_common_suffix(p1, p2, seq![91u8]);
}

/// Peels a member name and a decimal number off the end of two equal
/// concatenations: the numbers are equal, and so are the parts before the name.
proof fn lemma_peel_decimal(p1: Seq<u8>, n1: nat, p2: Seq<u8>, n2: nat, name: Seq<u8>)
    requires
        (p1 + name) + decimal(n1) == (p2 + name) + decimal(n2),
        name.len() > 0 && name.last() == 58u8,
    ensures
        p1 == p2,
        n1 == n2,
{
    lemma_decimal_no_colon(n1);
    lemma_decimal_no_colon(n2);
    vstd::seq_lib::lemma_append_last(p1, name);
    vstd::seq_lib::lemma_append_last(p2, name);
    crate::text::lemma_split_after_byte(p1 + name, decimal(n1), p2 + name, decimal(n2), 58u8);
    crate::text::lemma_decimal_injective(n1, n2);
    crate::text::lemma_drop_common_suffix(p1, p2, name);
}

/// The last members (data, fee limit, fee price, timestamp) of two equal
/// member lists are equal, and so are the members before them.
proof fn lemma_peel_tail(
    h1: Seq<u8>,
    data1: Seq<u8>,
    fee_limit1: u64,
    fee_price1: nat,
    timestamp1: i64,
    h2: Seq<u8>,
    data2: Seq<u8>,
    fee_limit2: u64,
    fee_price2: nat,
    timestamp2: i64,
)
    requires
        h1 + members_tail_json(data1, fee_limit1, fee_price1, timestamp1) == h2 + members_tail_json(
            data2,
            fee_limit2,
            fee_price2,
            timestamp2,
        ),
    ensures
        h1 == h2,
        data1 == data2,
        fee_limit1 == fee_limit2,
        fee_price1 == fee_price2,
        timestamp1 == timestamp2,
{
    lemma_literal_ends();
    let ld = ascii_of(",\"data\":"@);
    let lfl = ascii_of(",\"fee_limit\":"@);
    let lfp = ascii_of(",\"fee_price\":"@);
    let lts = ascii_of(",\"timestamp\":"@);
    let t6_1 = ld + json_bytes(data1) + lfl + decimal(fee_limit1 as nat) + lfp + json_amount(fee_price1);
    let t6_2 = ld + json_bytes(data2) + lfl + decimal(fee_limit2 as nat) + lfp + json_amount(fee_price2);
    let s1 = decimal_signed(timestamp1 as int);
    let s2 = decimal_signed(timestamp2 as int);
    // timestamp
    vstd::seq_lib::lemma_concat_associative(h1, t6_1 + lts, s1);
    vstd::seq_lib::lemma_concat_associative(h2, t6_2 + lts, s2);
    vstd::seq_lib::lemma_append_last(t6_1, lts);
    vstd::seq_lib::lemma_append_last(t6_2, lts);
    vstd::seq_lib::lemma_append_last(h1, t6_1 + lts);
    vstd::seq_lib::lemma_append_last(h2, t6_2 + lts);
    lemma_decimal_signed_no_colon(timestamp1 as int);
    lemma_decimal_signed_no_colon(timestamp2 as int);
    crate::text::lemma_split_after_byte(h1 + (t6_1 + lts), s1, h2 + (t6_2 + lts), s2, 58u8);
    crate::text::lemma_decimal_signed_injective(timestamp1 as int, timestamp2 as int);
    vstd::seq_lib::lemma_concat_associative(h1, t6_1, lts);
    vstd::seq_lib::lemma_concat_associative(h2, t6_2, lts);
    crate::text::lemma_drop_common_suffix(h1 + t6_1, h2 + t6_2, lts);
    // fee price
    let t4_1 = ld + json_bytes(data1) + lfl + decimal(fee_limit1 as nat);
    let t4_2 = ld + json_bytes(data2) + lfl + decimal(fee_limit2 as nat);
    vstd::seq_lib::lemma_concat_associative(h1, t4_1 + lfp, json_amount(fee_price1));
    vstd::seq_lib::lemma_concat_associative(h2, t4_2 + lfp, json_amount(fee_price2));
    lemma_peel_amount(h1 + (t4_1 + lfp), fee_price1, h2 + (t4_2 + lfp), fee_price2);
    vstd::seq_lib::lemma_concat_associative(h1, t4_1, lfp);
    vstd::seq_lib::lemma_concat_associative(h2, t4_2, lfp);
    crate::text::lemma_drop_common_suffix(h1 + t4_1, h2 + t4_2, lfp);
    // fee limit
    let t2_1 = ld + json_bytes(data1);
    let t2_2 = ld + json_bytes(data2);
    vstd::seq_lib::lemma_concat_associative(h1, t2_1 + lfl, decimal(fee_limit1 as nat));
    vstd::seq_lib::lemma_concat_associative(h2, t2_2 + lfl, decimal(fee_limit2 as nat));
    vstd::seq_lib::lemma_concat_associative(h1, t2_1, lfl);
    vstd::seq_lib::lemma_concat_associative(h2, t2_2, lfl);
    lemma_peel_decimal(h1 + t2_1, fee_limit1 as nat, h2 + t2_2, fee_limit2 as nat, lfl);
    // data
    vstd::seq_lib::lemma_concat_associative(h1, ld, json_bytes(data1));
    vstd::seq_lib::lemma_concat_associative(h2, ld, json_bytes(data2));
    lemma_peel_bytes(h1 + ld, data1, h2 + ld, data2);
    crate::text::lemma_drop_common_suffix(h1, h2, ld);
}

/// The first members (sender, recipient, value, nonce) of two equal member
/// lists are equal.
proof fn lemma_peel_head(
    from1: Seq<u8>,
    to1: Seq<u8>,
    value1: nat,
    nonce1: u64,
    from2: Seq<u8>,
    to2: Seq<u8>,
    value2: nat,
    nonce2: u64,
)
    requires
        members_head_json(from1, to1, value1, nonce1) == members_head_json(from2, to2, value2, nonce2),
    ensures
        from1 == from2,
        to1 == to2,
        value1 == value2,
        nonce1 == nonce2,
{
    lemma_literal_ends();
    let lf = ascii_of("\"from\":"@);
    let lt = ascii_of(",\"to\":"@);
    let lv = ascii_of(",\"value\":"@);
    let ln = ascii_of(",\"nonce\":"@);
    let a1 = lf + json_bytes(from1) + lt + json_bytes(to1) + lv + json_amount(value1);
    let a2 = lf + json_bytes(from2) + lt + json_bytes(to2) + lv + json_amount(value2);
    lemma_peel_decimal(a1, nonce1 as nat, a2, nonce2 as nat, ln);
    lemma_peel_amount(lf + json_bytes(from1) + lt + json_bytes(to1) + lv, value1, lf + json_bytes(from2)
        + lt + json_bytes(to2) + lv, value2);
    crate::text::lemma_drop_common_suffix(
        lf + json_bytes(from1) + lt + json_bytes(to1),
        lf + json_bytes(from2) + lt + json_bytes(to2),
        lv,
    );
    lemma_peel_bytes(lf + json_bytes(from1) + lt, to1, lf + json_bytes(from2) + lt, to2);
    crate::text::lemma_drop_common_suffix(lf + json_bytes(from1), lf + json_bytes(from2), lt);
    lemma_peel_bytes(lf, from1, lf, from2);
}

/// Equal signable messages come from equal transactions: the signed message
/// fixes every field of the transaction, so a signature covers them all.
pub proof fn lemma_signable_bytes_injective(t1: UnsignedTransactionView, t2: UnsignedTransactionView)
    requires
        signable_bytes_spec(t1) == signable_bytes_spec(t2),
    ensures
        t1 == t2,
{
    let h1 = members_head_json(t1.from, t1.to, t1.value, t1.nonce);
    let h2 = members_head_json(t2.from, t2.to, t2.value, t2.nonce);
    let m1 = unsigned_members_json(t1);
    let m2 = unsigned_members_json(t2);
    crate::text::lemma_drop_common_suffix(seq![123u8] + m1, seq![123u8] + m2, seq![125u8]);
    crate::text::lemma_drop_common_prefix(seq![123u8], m1, m2);
    lemma_peel_tail(
        h1,
        t1.data,
        t1.fee_limit,
        t1.fee_price,
        t1.timestamp,
        h2,
        t2.data,
        t2.fee_limit,
        t2.fee_price,
        t2.timestamp,
    );
    lemma_peel_head(t1.from, t1.to, t1.value, t1.nonce, t2.from, t2.to, t2.value, t2.nonce);
}

/// Distinct algorithms have distinct variant names, and no name holds a
/// double quote.
proof fn lemma_variant_name_injective(a: SignatureAlgorithm, b: SignatureAlgorithm)
    ensures
        ascii_of(a.spec_variant_name()) == ascii_of(b.spec_variant_name()) ==> a == b,
        forall|i: int| 0 <= i < ascii_of(a.spec_variant_name()).len() ==> ascii_of(a.spec_variant_name())[i] != 34u8,
{
    reveal_strlit("Ed25519");
    reveal_strlit("MlDsa65");
    reveal_strlit("MlDsa87");
    reveal_strlit("SlhDsaShake128f");
    reveal_strlit("SlhDsaShake256f");
    reveal_strlit("HybridEd25519MlDsa65");
    reveal_strlit("HybridEd25519SlhDsa128f");
    let na = ascii_of(a.spec_variant_name());
    let nb = ascii_of(b.spec_variant_name());
    if na == nb {
        assert(na.len() == nb.len());
        if na.len() == 7 {
            assert(na[5] == nb[5]);
        }
        if na.len() == 15 {
            assert(na[11] == nb[11]);
        }
    }
}

/// Peels the JSON object of a key or signature off the end of two equal
/// concatenations: the keys are equal, and so are the parts before them.
proof fn lemma_peel_tagged(p1: Seq<u8>, k1: TaggedBytes, p2: Seq<u8>, k2: TaggedBytes)
    requires
        p1 + tagged_json(k1) == p2 + tagged_json(k2),
    ensures
        p1 == p2,
        k1 == k2,
{
    reveal_strlit("{\"algorithm\":\"");
    let a = ascii_of("{\"algorithm\":\""@);
    let b = ascii_of("\",\"bytes\":"@);
    let n1 = ascii_of(k1.algorithm.spec_variant_name());
    let n2 = ascii_of(k2.algorithm.spec_variant_name());
    let jb1 = json_bytes(k1.bytes);
    let jb2 = json_bytes(k2.bytes);
    vstd::seq_lib::lemma_concat_associative(p1, a + n1 + b + jb1, seq![125u8]);
    vstd::seq_lib::lemma_concat_associative(p2, a + n2 + b + jb2, seq![125u8]);
    crate::text::lemma_drop_common_suffix(p1 + (a + n1 + b + jb1), p2 + (a + n2 + b + jb2), seq![125u8]);
    vstd::seq_lib::lemma_concat_associative(p1, a + n1 + b, jb1);
    vstd::seq_lib::lemma_concat_associative(p2, a + n2 + b, jb2);
    lemma_peel_bytes(p1 + (a + n1 + b), k1.bytes, p2 + (a + n2 + b), k2.bytes);
    vstd::seq_lib::lemma_concat_associative(p1, a + n1, b);
    vstd::seq_lib::lemma_concat_associative(p2, a + n2, b);
    crate::text::lemma_drop_common_suffix(p1 + (a + n1), p2 + (a + n2), b);
    vstd::seq_lib::lemma_concat_associative(p1, a, n1);
    vstd::seq_lib::lemma_concat_associative(p2, a, n2);
    lemma_variant_name_injective(k1.algorithm, k2.algorithm);
    lemma_variant_name_injective(k2.algorithm, k1.algorithm);
    vstd::seq_lib::lemma_append_last(p1, a);
    vstd::seq_lib::lemma_append_last(p2, a);
    crate::text::lemma_split_after_byte(p1 + a, n1, p2 + a, n2, 34u8);
    crate::text::lemma_drop_common_suffix(p1, p2, a);
}

/// Equal hashed JSON objects come from equal signed transactions: the object
/// that `hash` digests holds every field of the transaction, its signature
/// and its public key.
pub proof fn lemma_transaction_json_injective(t1: TransactionView, t2: TransactionView)
    requires
        transaction_json(t1) == transaction_json(t2),
    ensures
        t1 == t2,
{
    let u1 = unsigned_members_json(t1.unsigned);
    let u2 = unsigned_members_json(t2.unsigned);
    let ls = ascii_of(",\"signature\":"@);
    let lp = ascii_of(",\"public_key\":"@);
    let x3_1 = seq![123u8] + u1 + ls;
    let x3_2 = seq![123u8] + u2 + ls;
    let x4_1 = x3_1 + tagged_json(t1.signature) + lp;
    let x4_2 = x3_2 + tagged_json(t2.signature) + lp;
    crate::text::lemma_drop_common_suffix(
        x4_1 + tagged_json(t1.public_key),
        x4_2 + tagged_json(t2.public_key),
        seq![125u8],
    );
    lemma_peel_tagged(x4_1, t1.public_key, x4_2, t2.public_key);
    crate::text::lemma_drop_common_suffix(
        x3_1 + tagged_json(t1.signature),
        x3_2 + tagged_json(t2.signature),
        lp,
    );
    lemma_peel_tagged(x3_1, t1.signature, x3_2, t2.signature);
    crate::text::lemma_drop_common_suffix(seq![123u8] + u1, seq![123u8] + u2, ls);
    crate::text::lemma_drop_common_prefix(seq![123u8], u1, u2);
    assert(signable_bytes_spec(t1.unsigned) == signable_bytes_spec(t2.unsigned));
    lemma_signable_bytes_injective(t1.unsigned, t2.unsigned);
}

/// The cost of a transaction grows with the fee used: with at most the fee
/// limit used, it is at most the maximum cost.
pub proof fn lemma_actual_cost_at_most_max(value: nat, fee_used: u64, fee_limit: u64, fee_price: nat)
    requires
        fee_used <= fee_limit,
    ensures
        value + fee_used * fee_price <= value + fee_limit * fee_price,
{
    assert(fee_used * fee_price <= fee_limit * fee_price) by (nonlinear_arith)
        requires
            fee_used <= fee_limit,
            fee_price >= 0,
    ;
}

/// A transaction signed through a manager holding the Ed25519 scheme, with
/// the secret key of its sender's public key, passes every check: its
/// signature verifies, its sender is the key's address, and it carries a
/// value or data, a non-zero fee limit and a timestamp at most 300 seconds
/// ahead of `now`.
pub proof fn lemma_signed_transaction_verifies(
    manager: SignatureManager<Ed25519Scheme>,
    t: UnsignedTransactionView,
    secret_key: TaggedBytes,
    public_key: TaggedBytes,
    signed: Result<Signature, SignatureError>,
    checked: Result<bool, SignatureError>,
    now: i64,
)
    requires
        manager.lookup(SignatureAlgorithm::Ed25519) is Some,
        secret_key.algorithm == SignatureAlgorithm::Ed25519,
        secret_key.bytes.len() == 32,
        public_key.algorithm == SignatureAlgorithm::Ed25519,
        public_key.bytes == ed25519_public_spec(secret_key.bytes),
        public_key.bytes.len() == 32,
        ed25519_key_valid_spec(public_key.bytes),
        t.from.len() == 26,
        t.from[0] == 0x00 || t.from[0] == 0x6F,
        t.from == address_bytes_spec(t.from[0], SignatureAlgorithm::Ed25519.spec_id(), public_key.bytes),
        t.value != 0 || t.data.len() > 0,
        t.fee_limit != 0,
        t.timestamp <= now + 300,
        manager.sign_post(signable_bytes_spec(t), secret_key, signed),
        signed matches Ok(sig) ==> manager.verify_post(signable_bytes_spec(t), sig@, public_key, checked),
    ensures
        signed matches Ok(sig) && verify_outcome(
            TransactionView { unsigned: t, signature: sig@, public_key },
            checked,
            now,
        ) == VerifyOutcome::Valid,
{
    let sig = signed->Ok_0;
    crate::crypto::schemes::ed25519_scheme::lemma_sign_then_verify(
        signable_bytes_spec(t),
        secret_key,
        public_key,
        signed,
        checked,
    );
}

} // verus!
