//! Addresses: a network byte, an algorithm byte, the RIPEMD-160 of the SHA-256
//! of the public key, and a four-byte double-SHA-256 checksum.
use vstd::prelude::*;
use vstd::string::StringSliceAdditionalSpecFns;
use crate::crypto::algorithm::SignatureAlgorithm;
use crate::crypto::base58::{base58_decode_spec, base58_encode_spec};
use crate::crypto::digest::{ripemd160, ripemd160_spec, sha256, sha256_spec};
use crate::crypto::signature::{PublicKey, SignatureError};

verus! {

#[derive(Debug, Clone, Copy, PartialEq, Eq, Structural)]
pub enum NetworkId {
    Mainnet,
    Testnet,
}

impl NetworkId {
    /// The network byte: 0x00 for the main network, 0x6F for the test network.
    pub open spec fn spec_id(self) -> u8 {
        match self {
            NetworkId::Mainnet => 0x00,
            NetworkId::Testnet => 0x6F,
        }
    }

    pub fn to_u8(&self) -> (r: u8)
        ensures
            r == self.spec_id(),
    {
        match self {
            NetworkId::Mainnet => 0x00,
            NetworkId::Testnet => 0x6F,
        }
    }
}

#[derive(Debug, Clone, Copy, PartialEq, Eq, Structural)]
pub enum AddressError {
    InvalidChecksum,
    InvalidLength,
    InvalidNetwork,
    InvalidAlgorithm,
}

/// The first 22 bytes of an address: network byte, algorithm byte and the
/// 20-byte hash of the public key.
pub open spec fn address_prefix_spec(network: u8, algorithm: u8, payload: Seq<u8>) -> Seq<u8> {
    seq![network, algorithm] + payload
}

/// The address derived from a public key.
pub open spec fn address_bytes_spec(network: u8, algorithm: u8, public_key: Seq<u8>) -> Seq<u8> {
    let prefix = address_prefix_spec(network, algorithm, ripemd160_spec(sha256_spec(public_key)));
    prefix + sha256_spec(sha256_spec(prefix)).subrange(0, 4)
}

/// Base58 text of bytes.
///
/// Trusted: calls `bs58::encode(..).into_string()` (Bitcoin alphabet), which
/// writes a `1` for each leading zero byte, then the base58 digits of the
/// bytes read as a big-endian number.
#[verifier::external_body]
fn base58_encode(data: &[u8]) -> (r: String)
    ensures
        r@ == base58_encode_spec(data@),
{
    bs58::encode(data).into_string()
}

/// The error type of `bs58` decoding.
#[verifier::external_type_specification]
#[verifier::external_body]
pub struct ExBs58DecodeError(bs58::decode::Error);

/// Base58 decoding of the bytes of a text.
///
/// Trusted: calls `bs58::decode(..).into_vec()` (Bitcoin alphabet), which
/// rejects any byte outside the alphabet, and otherwise gives a zero byte for
/// each leading `1`, then the fewest big-endian bytes of the number the text
/// stands for.
#[verifier::external_body]
fn base58_decode(s: &str) -> (r: Result<Vec<u8>, bs58::decode::Error>)
    ensures
        match r {
            Ok(v) => base58_decode_spec(s.spec_bytes()) == Some(v@),
            Err(_) => base58_decode_spec(s.spec_bytes()) is None,
        },
{
    bs58::decode(s).into_vec()
}

/// What parsing an address from text gives.
pub open spec fn address_from_text_spec(b: Seq<u8>) -> Result<Seq<u8>, AddressError> {
    match base58_decode_spec(b) {
        None => Err(AddressError::InvalidChecksum),
        Some(bytes) => if bytes.len() != 26 {
            Err(AddressError::InvalidLength)
        } else {
            Ok(bytes)
        },
    }
}

#[derive(Debug, Clone, PartialEq, Eq)]
pub struct Address([u8; 26]);

impl View for Address {
    type V = Seq<u8>;

    closed spec fn view(&self) -> Seq<u8> {
        self.0@
    }
}

impl Address {
    /// Derives the address of a public key on a network.
    pub fn derive(pk: &PublicKey, network: NetworkId) -> (r: Result<Address, SignatureError>)
        ensures
            r matches Ok(a) && a@ == address_bytes_spec(
                network.spec_id(),
                pk.algorithm.spec_id(),
                pk.bytes@,
            ),
    {
        let payload = Self::hash_payload(pk.as_bytes());
        let prefix = Self::prefix_from_parts(network, pk.algorithm, &payload);
        let digest = Self::checksum_digest(prefix.as_slice());
        let a = Self::from_prefix_and_digest(&prefix, &digest);
        Ok(a)
    }

    /// The first 22 bytes of an address, from its network, algorithm and
    /// public-key hash.
    pub fn prefix_from_parts(network: NetworkId, algorithm: SignatureAlgorithm, payload: &[u8; 20]) -> (r: [u8; 22])
        ensures
            r@ == address_prefix_spec(network.spec_id(), algorithm.spec_id(), payload@),
    {
        let mut data = [0u8; 22];
        data[0] = network.to_u8();
        data[1] = algorithm.to_u8();
        let mut i: usize = 0;
        while i < 20
            invariant
                0 <= i <= 20,
                data@.len() == 22,
                data@[0] == network.spec_id(),
                data@[1] == algorithm.spec_id(),
                forall|j: int| 0 <= j < i ==> data@[2 + j] == payload@[j],
            decreases 20 - i,
        {
            data[2 + i] = payload[i];
            i = i + 1;
        }
        assert(data@ =~= address_prefix_spec(network.spec_id(), algorithm.spec_id(), payload@));
        data
    }

    /// The address made of a 22-byte prefix followed by the first four bytes of
    /// a checksum digest.
    pub fn from_prefix_and_digest(prefix: &[u8; 22], digest: &[u8; 32]) -> (r: Address)
        ensures
            r@ == prefix@ + digest@.subrange(0, 4),
    {
        let mut data = [0u8; 26];
        let mut i: usize = 0;
        while i < 22
            invariant
                0 <= i <= 22,
                data@.len() == 26,
                forall|j: int| 0 <= j < i ==> data@[j] == prefix@[j],
            decreases 22 - i,
        {
            data[i] = prefix[i];
            i = i + 1;
        }
        while i < 26
            invariant
                22 <= i <= 26,
                data@.len() == 26,
                forall|j: int| 0 <= j < 22 ==> data@[j] == prefix@[j],
                forall|j: int| 22 <= j < i ==> data@[j] == digest@[j - 22],
            decreases 26 - i,
        {
            data[i] = digest[i - 22];
            i = i + 1;
        }
        let a = Address(data);
        assert(a@ =~= prefix@ + digest@.subrange(0, 4));
        a
    }

    /// RIPEMD-160 of the SHA-256 of the public key bytes.
    fn hash_payload(pk_bytes: &[u8]) -> (r: [u8; 20])
        ensures
            r@ == ripemd160_spec(sha256_spec(pk_bytes@)),
    {
        let sha = sha256(pk_bytes);
        ripemd160(sha.as_slice())
    }

    /// SHA-256 of the SHA-256 of the prefix; its first four bytes are the checksum.
    fn checksum_digest(prefix: &[u8]) -> (r: [u8; 32])
        ensures
            r@ == sha256_spec(sha256_spec(prefix@)),
    {
        let first = sha256(prefix);
        sha256(first.as_slice())
    }

    /// The address as base58 text; parsing the text gives the address back.
    pub fn to_string(&self) -> (r: String)
        ensures
            r@ == base58_encode_spec(self@),
            address_from_text_spec(vstd::utf8::encode_utf8(r@)) == Ok::<Seq<u8>, AddressError>(self@),
    {
        proof {
            crate::crypto::base58::lemma_base58_roundtrip(self@);
        }
        base58_encode(self.0.as_slice())
    }

    /// Parses an address from base58 text.
    pub fn from_str(s: &str) -> (r: Result<Address, AddressError>)
        ensures
            match address_from_text_spec(s.spec_bytes()) {
                Ok(bytes) => r matches Ok(a) && a@ == bytes,
                Err(e) => r == Err::<Address, AddressError>(e),
            },
    {
        let bytes = match base58_decode(s) {
            Ok(v) => v,
            Err(_) => {
                return Err(AddressError::InvalidChecksum);
            },
        };
        Self::from_bytes(bytes.as_slice())
    }

    /// The address held by exactly 26 bytes.
    pub fn from_bytes(bytes: &[u8]) -> (r: Result<Address, AddressError>)
        ensures
            bytes@.len() == 26 ==> (r matches Ok(a) && a@ == bytes@),
            bytes@.len() != 26 ==> r == Err::<Address, AddressError>(AddressError::InvalidLength),
    {
        if bytes.len() != 26 {
            return Err(AddressError::InvalidLength);
        }
        let mut arr = [0u8; 26];
        let mut i: usize = 0;
        while i < 26
            invariant
                0 <= i <= 26,
                bytes@.len() == 26,
                forall|j: int| 0 <= j < i ==> arr@[j] == bytes@[j],
            decreases 26 - i,
        {
            arr[i] = bytes[i];
            i = i + 1;
        }
        let a = Address(arr);
        assert(a@ =~= bytes@);
        Ok(a)
    }

    /// An address holds 26 bytes.
    pub proof fn lemma_len(&self)
        ensures
            self@.len() == 26,
    {
    }

    /// The 26 bytes of the address.
    pub fn as_bytes(&self) -> (r: &[u8])
        ensures
            r@ == self@,
    {
        self.0.as_slice()
    }

    pub fn network(&self) -> (r: Result<NetworkId, AddressError>)
        ensures
            self@[0] == 0x00 ==> r == Ok::<NetworkId, AddressError>(NetworkId::Mainnet),
            self@[0] == 0x6F ==> r == Ok::<NetworkId, AddressError>(NetworkId::Testnet),
            self@[0] != 0x00 && self@[0] != 0x6F ==> r == Err::<NetworkId, AddressError>(
                AddressError::InvalidNetwork,
            ),
    {
        match self.0[0] {
            0x00 => Ok(NetworkId::Mainnet),
            0x6F => Ok(NetworkId::Testnet),
            _ => Err(AddressError::InvalidNetwork),
        }
    }

    pub fn algorithm(&self) -> (r: Result<SignatureAlgorithm, AddressError>)
        ensures
            match SignatureAlgorithm::spec_from_id(self@[1]) {
                Some(a) => r == Ok::<SignatureAlgorithm, AddressError>(a),
                None => r == Err::<SignatureAlgorithm, AddressError>(AddressError::InvalidAlgorithm),
            },
    {
        match SignatureAlgorithm::from_u8(self.0[1]) {
            Some(a) => Ok(a),
            None => Err(AddressError::InvalidAlgorithm),
        }
    }

    /// The 20-byte public-key hash.
    pub fn payload(&self) -> (r: &[u8])
        ensures
            r@ == self@.subrange(2, 22),
    {
        &self.0.as_slice()[2..22]
    }

    /// Whether two addresses hold the same bytes.
    pub fn equals(&self, other: &Address) -> (r: bool)
        ensures
            r == (self@ == other@),
    {
        crate::crypto::signature::bytes_equal(self.0.as_slice(), other.0.as_slice())
    }
}

/// The network of an address that was derived on a network is that network.
pub proof fn lemma_derived_network(network: NetworkId, algorithm: SignatureAlgorithm, public_key: Seq<u8>)
    ensures
        address_bytes_spec(network.spec_id(), algorithm.spec_id(), public_key)[0] == network.spec_id(),
        address_bytes_spec(network.spec_id(), algorithm.spec_id(), public_key)[1] == algorithm.spec_id(),
{
}

} // verus!
