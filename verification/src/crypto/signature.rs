//! Keys, signatures, their errors and encodings, and the interface of a
//! signature scheme.
use vstd::prelude::*;
use vstd::string::StringSliceAdditionalSpecFns;
use crate::crypto::address::{Address, NetworkId};
use crate::crypto::algorithm::SignatureAlgorithm;
use crate::text::{
    chars_of, decimal, hex_decode, hex_decode_spec, hex_encode, hex_lower, parse_u8_hex,
    parse_u8_hex_spec, decimal_string,
};

verus! {

broadcast use vstd::string::group_string_axioms;

#[derive(Debug)]
pub enum SignatureError {
    InvalidSignature,
    InvalidPublicKey,
    InvalidSecretKey,
    KeyGenerationFailed(String),
    SigningFailed(String),
    VerificationFailed(String),
    UnsupportedAlgorithm(SignatureAlgorithm),
    InvalidLength { expected: usize, actual: usize },
    AlgorithmMismatch { expected: String, actual: String },
}

impl SignatureError {
    /// The message each error prints as.
    pub open spec fn spec_message(&self) -> Seq<char> {
        match self {
            SignatureError::InvalidSignature => "Invalid signature"@,
            SignatureError::InvalidPublicKey => "Invalid public key"@,
            SignatureError::InvalidSecretKey => "Invalid secret key"@,
            SignatureError::KeyGenerationFailed(s) => "Key generation failed: "@ + s@,
            SignatureError::SigningFailed(s) => "Signing failed: "@ + s@,
            SignatureError::VerificationFailed(s) => "Verification failed: "@ + s@,
            SignatureError::UnsupportedAlgorithm(a) => "Unsupported algorithm: "@ + a.spec_display(),
            SignatureError::InvalidLength { expected, actual } => "Invalid signature length: expected "@
                + chars_of(decimal(*expected as nat)) + ", got "@ + chars_of(decimal(*actual as nat)),
            SignatureError::AlgorithmMismatch { expected, actual } => "Algorithm mismatch: expected "@
                + expected@ + ", got "@ + actual@,
        }
    }

    /// The message of the error.
    pub fn to_string(&self) -> (r: String)
        ensures
            r@ == self.spec_message(),
    {
        match self {
            SignatureError::InvalidSignature => String::from_str("Invalid signature"),
            SignatureError::InvalidPublicKey => String::from_str("Invalid public key"),
            SignatureError::InvalidSecretKey => String::from_str("Invalid secret key"),
            SignatureError::KeyGenerationFailed(s) => {
                let mut r = String::from_str("Key generation failed: ");
                r.append(s.as_str());
                r
            },
            SignatureError::SigningFailed(s) => {
                let mut r = String::from_str("Signing failed: ");
                r.append(s.as_str());
                r
            },
            SignatureError::VerificationFailed(s) => {
                let mut r = String::from_str("Verification failed: ");
                r.append(s.as_str());
                r
            },
            SignatureError::UnsupportedAlgorithm(a) => {
                let mut r = String::from_str("Unsupported algorithm: ");
                let name = a.to_string();
                r.append(name.as_str());
                r
            },
            SignatureError::InvalidLength { expected, actual } => {
                let mut r = String::from_str("Invalid signature length: expected ");
                let e = decimal_string(*expected as u128);
                r.append(e.as_str());
                r.append(", got ");
                let a = decimal_string(*actual as u128);
                r.append(a.as_str());
                r
            },
            SignatureError::AlgorithmMismatch { expected, actual } => {
                let mut r = String::from_str("Algorithm mismatch: expected ");
                r.append(expected.as_str());
                r.append(", got ");
                r.append(actual.as_str());
                r
            },
        }
    }
}

/// An algorithm tag with a byte string: the abstract value of keys and signatures.
pub struct TaggedBytes {
    pub algorithm: SignatureAlgorithm,
    pub bytes: Seq<u8>,
}

#[derive(Debug, Clone, PartialEq, Eq)]
pub struct PublicKey {
    pub algorithm: SignatureAlgorithm,
    pub bytes: Vec<u8>,
}

impl View for PublicKey {
    type V = TaggedBytes;

    open spec fn view(&self) -> TaggedBytes {
        TaggedBytes { algorithm: self.algorithm, bytes: self.bytes@ }
    }
}

/// A public key is well formed when its length is the algorithm's key size.
pub open spec fn public_key_wf(k: TaggedBytes) -> bool {
    k.bytes.len() == k.algorithm.spec_public_key_size()
}

/// What constructing a public key from an algorithm and bytes gives.
pub open spec fn public_key_new_spec(algorithm: SignatureAlgorithm, bytes: Seq<u8>) -> Result<
    TaggedBytes,
    (usize, usize),
> {
    if bytes.len() != algorithm.spec_public_key_size() {
        Err((algorithm.spec_public_key_size(), bytes.len() as usize))
    } else {
        Ok(TaggedBytes { algorithm, bytes })
    }
}

/// Bytes hold exactly one `:`.
pub open spec fn has_single_colon(b: Seq<u8>) -> bool {
    exists|i: int|
        0 <= i < b.len() && b[i] == 58u8 && forall|j: int|
            0 <= j < b.len() && j != i ==> #[trigger] b[j] != 58u8
}

/// Position of the single `:`.
pub open spec fn colon_index(b: Seq<u8>) -> int {
    choose|i: int|
        0 <= i < b.len() && b[i] == 58u8 && forall|j: int|
            0 <= j < b.len() && j != i ==> #[trigger] b[j] != 58u8
}

/// What `PublicKey::from_hex` gives for the bytes of its input: the error
/// `None` stands for `InvalidPublicKey`, `Some((expected, actual))` for
/// `InvalidLength`.
pub open spec fn public_key_from_hex_spec(b: Seq<u8>) -> Result<TaggedBytes, Option<(usize, usize)>> {
    if !has_single_colon(b) {
        Err(None)
    } else {
        let i = colon_index(b);
        match parse_u8_hex_spec(b.subrange(0, i)) {
            None => Err(None),
            Some(id) => match SignatureAlgorithm::spec_from_id(id) {
                None => Err(None),
                Some(algorithm) => match hex_decode_spec(b.subrange(i + 1, b.len() as int)) {
                    None => Err(None),
                    Some(bytes) => match public_key_new_spec(algorithm, bytes) {
                        Ok(k) => Ok(k),
                        Err(e) => Err(Some(e)),
                    },
                },
            },
        }
    }
}

/// The hexadecimal text form of a public key: the algorithm byte as two
/// lowercase digits, a colon, and the key bytes in lowercase hexadecimal.
pub open spec fn public_key_hex_spec(k: TaggedBytes) -> Seq<char> {
    chars_of(hex_lower(seq![k.algorithm.spec_id()])) + ":"@ + chars_of(hex_lower(k.bytes))
}

impl PublicKey {
    pub fn new(algorithm: SignatureAlgorithm, bytes: Vec<u8>) -> (r: Result<PublicKey, SignatureError>)
        ensures
            match public_key_new_spec(algorithm, bytes@) {
                Ok(k) => r matches Ok(pk) && pk@ == k,
                Err((expected, actual)) => r matches Err(SignatureError::InvalidLength { expected: e, actual: a })
                    && e == expected && a == actual,
            },
    {
        if bytes.len() != algorithm.public_key_size() {
            return Err(
                SignatureError::InvalidLength {
                    expected: algorithm.public_key_size(),
                    actual: bytes.len(),
                },
            );
        }
        Ok(PublicKey { algorithm, bytes })
    }

    pub fn from_bytes(algorithm: SignatureAlgorithm, bytes: &[u8]) -> (r: Result<
        PublicKey,
        SignatureError,
    >)
        ensures
            match public_key_new_spec(algorithm, bytes@) {
                Ok(k) => r matches Ok(pk) && pk@ == k,
                Err((expected, actual)) => r matches Err(SignatureError::InvalidLength { expected: e, actual: a })
                    && e == expected && a == actual,
            },
    {
        Self::new(algorithm, vstd::slice::slice_to_vec(bytes))
    }

    pub fn as_bytes(&self) -> (r: &[u8])
        ensures
            r@ == self.bytes@,
    {
        self.bytes.as_slice()
    }

    /// A copy of the key.
    pub fn duplicate(&self) -> (r: PublicKey)
        ensures
            r@ == self@,
    {
        PublicKey { algorithm: self.algorithm, bytes: vstd::slice::slice_to_vec(self.bytes.as_slice()) }
    }

    /// The key as text: `<algorithm byte as two hex digits>:<key bytes in hex>`.
    pub fn to_hex(&self) -> (r: String)
        ensures
            r@ == public_key_hex_spec(self@),
    {
        let id = [self.algorithm.to_u8()];
        let prefix = hex_encode(id.as_slice());
        let body = hex_encode(self.bytes.as_slice());
        let mut r = String::new();
        r.append(prefix.as_str());
        r.append(":");
        r.append(body.as_str());
        assert(id@ =~= seq![self.algorithm.spec_id()]);
        r
    }

    /// Parses the text form written by `to_hex`.
    pub fn from_hex(s: &str) -> (r: Result<PublicKey, SignatureError>)
        ensures
            match public_key_from_hex_spec(s.spec_bytes()) {
                Ok(k) => r matches Ok(pk) && pk@ == k,
                Err(None) => r matches Err(SignatureError::InvalidPublicKey),
                Err(Some((expected, actual))) => r matches Err(
                    SignatureError::InvalidLength { expected: e, actual: a },
                ) && e == expected && a == actual,
            },
    {
        let b = s.as_bytes();
        let ghost bs = b@;
        let mut count: usize = 0;
        let mut idx: usize = 0;
        let mut i: usize = 0;
        while i < b.len()
            invariant
                0 <= i <= b.len(),
                b@ == bs,
                count <= i,
                count == 0 ==> forall|j: int| 0 <= j < i ==> bs[j] != 58u8,
                count >= 1 ==> 0 <= idx < i && bs[idx as int] == 58u8,
                count >= 1 ==> forall|j: int| 0 <= j < idx ==> bs[j] != 58u8,
                count == 1 ==> forall|j: int| 0 <= j < i && j != idx ==> bs[j] != 58u8,
                count >= 2 ==> exists|j: int| 0 <= j < i && j != idx && bs[j] == 58u8,
            decreases b.len() - i,
        {
            if b[i] == 58u8 {
                if count == 0 {
                    idx = i;
                }
                if count < 2 {
                    count = count + 1;
                }
            }
            i = i + 1;
        }
        if count != 1 {
            proof {
                if has_single_colon(bs) {
                    let k = choose|k: int|
                        0 <= k < bs.len() && bs[k] == 58u8 && forall|j: int|
                            0 <= j < bs.len() && j != k ==> #[trigger] bs[j] != 58u8;
                    if count >= 2 {
                        let j = choose|j: int| 0 <= j < bs.len() && j != idx && bs[j] == 58u8;
                        assert(bs[idx as int] == 58u8);
                        assert(j == k);
                        assert(idx as int == k);
                    } else {
                        assert(bs[k] == 58u8);
                    }
                }
            }
            return Err(SignatureError::InvalidPublicKey);
        }
        proof {
            assert(has_single_colon(bs));
            let c = colon_index(bs);
            assert(c == idx as int);
            vstd::utf8::encode_utf8_valid_utf8(s@);
            vstd::utf8::is_char_boundary_iff_is_leading_byte(bs, idx as int);
        }
        let (head, rest) = s.split_at(idx);
        proof {
            let rb = rest.spec_bytes();
            assert(rb =~= bs.subrange(idx as int, bs.len() as int));
            assert(rb[0] == 58u8);
            vstd::utf8::encode_utf8_valid_utf8(rest@);
            if rb.len() == 1 {
                vstd::utf8::is_char_boundary_start_end_of_seq(rb);
            } else {
                reveal_with_fuel(vstd::utf8::is_char_boundary, 2);
                vstd::utf8::is_char_boundary_iff_is_leading_byte(rb, 0);
            }
        }
        let (_colon, tail) = rest.split_at(1);
        assert(head.spec_bytes() =~= bs.subrange(0, idx as int));
        assert(tail.spec_bytes() =~= bs.subrange(idx + 1, bs.len() as int));
        let algo_byte = match parse_u8_hex(head) {
            Ok(v) => v,
            Err(_) => {
                return Err(SignatureError::InvalidPublicKey);
            },
        };
        let algorithm = match SignatureAlgorithm::from_u8(algo_byte) {
            Some(a) => a,
            None => {
                return Err(SignatureError::InvalidPublicKey);
            },
        };
        let bytes = match hex_decode(tail) {
            Ok(v) => v,
            Err(_) => {
                return Err(SignatureError::InvalidPublicKey);
            },
        };
        Self::new(algorithm, bytes)
    }

    pub fn derive_address(&self, network: NetworkId) -> (r: Result<Address, SignatureError>)
        ensures
            r matches Ok(a) && a@ == crate::crypto::address::address_bytes_spec(
                network.spec_id(),
                self.algorithm.spec_id(),
                self.bytes@,
            ),
    {
        Address::derive(self, network)
    }
}

/// Whether two byte strings are equal.
pub fn bytes_equal(a: &[u8], b: &[u8]) -> (r: bool)
    ensures
        r == (a@ == b@),
{
    if a.len() != b.len() {
        return false;
    }
    let mut i: usize = 0;
    while i < a.len()
        invariant
            0 <= i <= a.len(),
            a@.len() == b@.len(),
            forall|j: int| 0 <= j < i ==> a@[j] == b@[j],
        decreases a.len() - i,
    {
        if a[i] != b[i] {
            return false;
        }
        i = i + 1;
    }
    assert(a@ =~= b@);
    true
}

#[derive(Clone)]
pub struct SecretKey {
    pub algorithm: SignatureAlgorithm,
    pub bytes: Vec<u8>,
}

impl View for SecretKey {
    type V = TaggedBytes;

    open spec fn view(&self) -> TaggedBytes {
        TaggedBytes { algorithm: self.algorithm, bytes: self.bytes@ }
    }
}

impl SecretKey {
    pub fn new(algorithm: SignatureAlgorithm, bytes: Vec<u8>) -> (r: SecretKey)
        ensures
            r@ == (TaggedBytes { algorithm, bytes: bytes@ }),
    {
        SecretKey { algorithm, bytes }
    }

    pub fn as_bytes(&self) -> (r: &[u8])
        ensures
            r@ == self.bytes@,
    {
        self.bytes.as_slice()
    }
}

#[derive(Debug, Clone, PartialEq, Eq)]
pub struct Signature {
    pub algorithm: SignatureAlgorithm,
    pub bytes: Vec<u8>,
}

impl View for Signature {
    type V = TaggedBytes;

    open spec fn view(&self) -> TaggedBytes {
        TaggedBytes { algorithm: self.algorithm, bytes: self.bytes@ }
    }
}

/// A signature is well formed when its length is the algorithm's signature size.
pub open spec fn signature_wf(s: TaggedBytes) -> bool {
    s.bytes.len() == s.algorithm.spec_signature_size()
}

/// What constructing a signature from an algorithm and bytes gives.
pub open spec fn signature_new_spec(algorithm: SignatureAlgorithm, bytes: Seq<u8>) -> Result<
    TaggedBytes,
    (usize, usize),
> {
    if bytes.len() != algorithm.spec_signature_size() {
        Err((algorithm.spec_signature_size(), bytes.len() as usize))
    } else {
        Ok(TaggedBytes { algorithm, bytes })
    }
}

/// The wire form of a signature: the algorithm byte, then the signature bytes.
pub open spec fn signature_wire_spec(s: TaggedBytes) -> Seq<u8> {
    seq![s.algorithm.spec_id()] + s.bytes
}

/// What decoding the wire form gives: the error `None` stands for
/// `InvalidSignature`, `Some((expected, actual))` for `InvalidLength`.
pub open spec fn signature_from_wire_spec(data: Seq<u8>) -> Result<TaggedBytes, Option<(usize, usize)>> {
    if data.len() == 0 {
        Err(None)
    } else {
        match SignatureAlgorithm::spec_from_id(data[0]) {
            None => Err(None),
            Some(algorithm) => match signature_new_spec(algorithm, data.drop_first()) {
                Ok(s) => Ok(s),
                Err(e) => Err(Some(e)),
            },
        }
    }
}

/// What decoding the hexadecimal text form gives (errors as for the wire form).
pub open spec fn signature_from_hex_spec(b: Seq<u8>) -> Result<TaggedBytes, Option<(usize, usize)>> {
    match hex_decode_spec(b) {
        None => Err(None),
        Some(data) => signature_from_wire_spec(data),
    }
}

impl Signature {
    pub fn new(algorithm: SignatureAlgorithm, bytes: Vec<u8>) -> (r: Result<Signature, SignatureError>)
        ensures
            match signature_new_spec(algorithm, bytes@) {
                Ok(s) => r matches Ok(sig) && sig@ == s,
                Err((expected, actual)) => r matches Err(SignatureError::InvalidLength { expected: e, actual: a })
                    && e == expected && a == actual,
            },
    {
        if bytes.len() != algorithm.signature_size() {
            return Err(
                SignatureError::InvalidLength {
                    expected: algorithm.signature_size(),
                    actual: bytes.len(),
                },
            );
        }
        Ok(Signature { algorithm, bytes })
    }

    pub fn as_bytes(&self) -> (r: &[u8])
        ensures
            r@ == self.bytes@,
    {
        self.bytes.as_slice()
    }

    pub fn to_wire_format(&self) -> (r: Vec<u8>)
        ensures
            r@ == signature_wire_spec(self@),
    {
        let mut result: Vec<u8> = Vec::new();
        result.push(self.algorithm.to_u8());
        crate::text::push_bytes(&mut result, self.bytes.as_slice());
        assert(result@ =~= signature_wire_spec(self@));
        result
    }

    pub fn from_wire_format(data: &[u8]) -> (r: Result<Signature, SignatureError>)
        ensures
            match signature_from_wire_spec(data@) {
                Ok(s) => r matches Ok(sig) && sig@ == s,
                Err(None) => r matches Err(SignatureError::InvalidSignature),
                Err(Some((expected, actual))) => r matches Err(
                    SignatureError::InvalidLength { expected: e, actual: a },
                ) && e == expected && a == actual,
            },
    {
        if data.len() == 0 {
            return Err(SignatureError::InvalidSignature);
        }
        let algorithm = match SignatureAlgorithm::from_u8(data[0]) {
            Some(a) => a,
            None => {
                return Err(SignatureError::InvalidSignature);
            },
        };
        let rest = vstd::slice::slice_to_vec(&data[1..data.len()]);
        assert(rest@ =~= data@.drop_first());
        Self::new(algorithm, rest)
    }

    /// The wire form in lowercase hexadecimal.
    pub fn to_hex(&self) -> (r: String)
        ensures
            r@ == chars_of(hex_lower(signature_wire_spec(self@))),
    {
        let wire = self.to_wire_format();
        hex_encode(wire.as_slice())
    }

    pub fn from_hex(s: &str) -> (r: Result<Signature, SignatureError>)
        ensures
            match signature_from_hex_spec(s.spec_bytes()) {
                Ok(sg) => r matches Ok(sig) && sig@ == sg,
                Err(None) => r matches Err(SignatureError::InvalidSignature),
                Err(Some((expected, actual))) => r matches Err(
                    SignatureError::InvalidLength { expected: e, actual: a },
                ) && e == expected && a == actual,
            },
    {
        let bytes = match hex_decode(s) {
            Ok(v) => v,
            Err(_) => {
                return Err(SignatureError::InvalidSignature);
            },
        };
        Self::from_wire_format(bytes.as_slice())
    }
}

/// Decoding the wire form of a well-formed signature gives the signature back.
pub proof fn lemma_signature_wire_roundtrip(s: TaggedBytes)
    requires
        signature_wf(s),
    ensures
        signature_from_wire_spec(signature_wire_spec(s)) == Ok::<TaggedBytes, Option<(usize, usize)>>(s),
{
    let w = signature_wire_spec(s);
    assert(w.drop_first() =~= s.bytes);
    crate::crypto::algorithm::lemma_id_roundtrip(s.algorithm);
}

/// Decoding the hexadecimal form of a well-formed signature gives the signature back.
pub proof fn lemma_signature_hex_roundtrip(s: TaggedBytes)
    requires
        signature_wf(s),
    ensures
        signature_from_hex_spec(crate::text::ascii_of(chars_of(hex_lower(signature_wire_spec(s)))))
            == Ok::<TaggedBytes, Option<(usize, usize)>>(s),
{
    let w = signature_wire_spec(s);
    crate::text::lemma_hex_lower_len(w);
    crate::text::lemma_chars_of_ascii(hex_lower(w));
    crate::text::lemma_hex_roundtrip(w);
    lemma_signature_wire_roundtrip(s);
}

/// Parsing the hexadecimal text form of a well-formed public key gives the key back.
pub proof fn lemma_public_key_hex_roundtrip(k: TaggedBytes)
    requires
        public_key_wf(k),
    ensures
        public_key_from_hex_spec(vstd::utf8::encode_utf8(public_key_hex_spec(k))) == Ok::<
            TaggedBytes,
            Option<(usize, usize)>,
        >(k),
{
    let id = k.algorithm.spec_id();
    let hp = hex_lower(seq![id]);
    let hb = hex_lower(k.bytes);
    crate::text::lemma_hex_lower_len(seq![id]);
    crate::text::lemma_hex_lower_len(k.bytes);
    crate::text::lemma_hex_lower_digits(seq![id]);
    crate::text::lemma_hex_lower_digits(k.bytes);
    let chars = public_key_hex_spec(k);
    let b = hp + seq![58u8] + hb;
    assert(crate::text::ascii_of(chars) =~= b) by {
        crate::text::lemma_chars_of_ascii(hp);
        crate::text::lemma_chars_of_ascii(hb);
        reveal_strlit(":");
    }
    assert(vstd::utf8::is_ascii_chars(chars)) by {
        crate::text::lemma_chars_of_ascii(hp);
        crate::text::lemma_chars_of_ascii(hb);
        reveal_strlit(":");
        assert forall|i: int| 0 <= i < chars.len() implies '\0' <= #[trigger] chars[i] <= '\u{7f}' by {
            if i < 2 {
                assert(chars[i] == chars_of(hp)[i]);
            } else if i > 2 {
                assert(chars[i] == chars_of(hb)[i - 3]);
            }
        }
    }
    vstd::utf8::is_ascii_chars_encode_utf8(chars);
    assert(vstd::utf8::encode_utf8(chars) =~= b);
    assert forall|j: int| 0 <= j < b.len() && j != 2 implies #[trigger] b[j] != 58u8 by {
        if j < 2 {
            assert(b[j] == hp[j]);
            assert(crate::text::hex_value(hp[j]) is Some);
        } else {
            assert(b[j] == hb[j - 3]);
            assert(crate::text::hex_value(hb[j - 3]) is Some);
        }
    }
    assert(b[2] == 58u8);
    assert(has_single_colon(b));
    assert(colon_index(b) == 2);
    assert(b.subrange(0, 2) =~= hp);
    assert(b.subrange(3, b.len() as int) =~= hb);
    assert(hp[0] != 43u8) by {
        assert(crate::text::hex_value(hp[0]) is Some);
    }
    assert(crate::text::hex_digits_value(hp) == id as nat) by {
        assert(hp.drop_last().drop_last() =~= Seq::<u8>::empty());
        assert(hp =~= seq![crate::text::hex_digit((id / 16) as nat), crate::text::hex_digit((id % 16) as nat)]);
        assert(hp.drop_last() =~= seq![crate::text::hex_digit((id / 16) as nat)]);
        crate::text::lemma_hex_digit_value((id / 16) as nat);
        crate::text::lemma_hex_digit_value((id % 16) as nat);
        assert(crate::text::hex_digits_value(Seq::<u8>::empty()) == 0);
        assert(crate::text::hex_digits_value(hp.drop_last()) == (id / 16) as nat);
    }
    crate::crypto::algorithm::lemma_id_roundtrip(k.algorithm);
    crate::text::lemma_hex_roundtrip(k.bytes);
}

/// A signature scheme: key generation, signing and verification for one algorithm.
///
/// Each scheme states, through the `*_post` predicates, what its operations
/// return; a scheme that promises nothing defines them as `true`.
pub trait SignatureScheme: Send + Sync {
    /// The algorithm this scheme implements.
    spec fn spec_algorithm(&self) -> SignatureAlgorithm;

    /// What holds of a generated key pair.
    spec fn keypair_post(&self, r: Result<(PublicKey, SecretKey), SignatureError>) -> bool;

    /// What holds of the result of signing `message` with `secret_key`.
    spec fn sign_post(
        &self,
        message: Seq<u8>,
        secret_key: TaggedBytes,
        r: Result<Signature, SignatureError>,
    ) -> bool;

    /// What holds of the result of verifying `signature` on `message` under `public_key`.
    spec fn verify_post(
        &self,
        message: Seq<u8>,
        signature: TaggedBytes,
        public_key: TaggedBytes,
        r: Result<bool, SignatureError>,
    ) -> bool;

    fn generate_keypair(&self) -> (r: Result<(PublicKey, SecretKey), SignatureError>)
        ensures
            self.keypair_post(r),
    ;

    fn sign(&self, message: &[u8], secret_key: &SecretKey) -> (r: Result<Signature, SignatureError>)
        ensures
            self.sign_post(message@, secret_key@, r),
    ;

    fn verify(&self, message: &[u8], signature: &Signature, public_key: &PublicKey) -> (r: Result<
        bool,
        SignatureError,
    >)
        ensures
            self.verify_post(message@, signature@, public_key@, r),
    ;

    fn algorithm(&self) -> (r: SignatureAlgorithm)
        ensures
            r == self.spec_algorithm(),
    ;
}

} // verus!
