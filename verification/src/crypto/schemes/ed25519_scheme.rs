//! The Ed25519 signature scheme, through the `ed25519-dalek` crate.
use ed25519_dalek::{Signer, Verifier};
use vstd::prelude::*;
use crate::crypto::algorithm::SignatureAlgorithm;
use crate::crypto::signature::{
    PublicKey, SecretKey, Signature, SignatureError, SignatureScheme, TaggedBytes,
};

verus! {

/// The public key (32 bytes) of an Ed25519 secret key seed.
pub uninterp spec fn ed25519_public_spec(seed: Seq<u8>) -> Seq<u8>;

/// The signature (64 bytes) of a message under an Ed25519 secret key seed.
pub uninterp spec fn ed25519_sign_spec(seed: Seq<u8>, message: Seq<u8>) -> Seq<u8>;

/// Whether 32 bytes decode to an Ed25519 public key (a point on the curve).
pub uninterp spec fn ed25519_key_valid_spec(public_key: Seq<u8>) -> bool;

/// Whether a signature verifies on a message under a (valid) public key.
pub uninterp spec fn ed25519_verify_spec(public_key: Seq<u8>, message: Seq<u8>, signature: Seq<u8>) -> bool;

/// A fresh random secret key seed.
///
/// Trusted: calls `SigningKey::generate` with the operating system's random
/// number generator and returns the key's 32-byte seed. Nothing is stated of
/// the value: it is random.
#[verifier::external_body]
fn ed25519_generate_seed() -> (r: [u8; 32]) {
    ed25519_dalek::SigningKey::generate(&mut rand::rngs::OsRng).to_bytes()
}

/// The public key of a secret key seed.
///
/// Trusted: calls `SigningKey::verifying_key` on the key made from the seed by
/// `SigningKey::from_bytes`, and returns its 32 bytes. A key so derived is a
/// curve point, so `VerifyingKey::from_bytes` accepts it.
#[verifier::external_body]
fn ed25519_public_key(seed: &[u8; 32]) -> (r: [u8; 32])
    ensures
        r@ == ed25519_public_spec(seed@),
        ed25519_key_valid_spec(r@),
{
    ed25519_dalek::SigningKey::from_bytes(seed).verifying_key().to_bytes()
}

/// Signs a message with a secret key seed.
///
/// Trusted: calls `Signer::sign` of the `SigningKey` made from the seed by
/// `SigningKey::from_bytes`, and returns the signature's 64 bytes. Ed25519
/// signing is deterministic, and the signature verifies under the seed's
/// public key (the crate's documentation shows this).
#[verifier::external_body]
fn ed25519_sign(seed: &[u8; 32], message: &[u8]) -> (r: [u8; 64])
    ensures
        r@ == ed25519_sign_spec(seed@, message@),
        ed25519_verify_spec(ed25519_public_spec(seed@), message@, r@),
{
    ed25519_dalek::SigningKey::from_bytes(seed).sign(message).to_bytes()
}

/// Whether 32 bytes are an Ed25519 public key.
///
/// Trusted: calls `VerifyingKey::from_bytes` and reports whether it succeeded.
#[verifier::external_body]
fn ed25519_key_valid(public_key: &[u8; 32]) -> (r: bool)
    ensures
        r == ed25519_key_valid_spec(public_key@),
{
    ed25519_dalek::VerifyingKey::from_bytes(public_key).is_ok()
}

/// Verifies a signature on a message under a valid public key.
///
/// Trusted: calls `Verifier::verify` of the `VerifyingKey` made by
/// `VerifyingKey::from_bytes` (which succeeds, by the precondition), with the
/// signature made by `Signature::from_bytes`, and reports whether it succeeded.
#[verifier::external_body]
fn ed25519_verify(public_key: &[u8; 32], message: &[u8], signature: &[u8; 64]) -> (r: bool)
    requires
        ed25519_key_valid_spec(public_key@),
    ensures
        r == ed25519_verify_spec(public_key@, message@, signature@),
{
    match ed25519_dalek::VerifyingKey::from_bytes(public_key) {
        Ok(vk) => vk.verify(message, &ed25519_dalek::Signature::from_bytes(signature)).is_ok(),
        Err(_) => false,
    }
}

/// What Ed25519 signing gives for a message and a secret key.
pub open spec fn ed25519_sign_result(message: Seq<u8>, secret_key: TaggedBytes, r: Result<Signature, SignatureError>) -> bool {
    if secret_key.algorithm != SignatureAlgorithm::Ed25519 {
        r matches Err(SignatureError::AlgorithmMismatch { expected, actual })
            && expected@ == "ED25519"@ && actual@ == secret_key.algorithm.spec_display()
    } else if secret_key.bytes.len() != 32 {
        r matches Err(SignatureError::InvalidSecretKey)
    } else {
        r matches Ok(sig) && sig.algorithm == SignatureAlgorithm::Ed25519
            && sig.bytes@ == ed25519_sign_spec(secret_key.bytes, message)
            && sig.bytes@.len() == 64
            && ed25519_verify_spec(ed25519_public_spec(secret_key.bytes), message, sig.bytes@)
    }
}

/// What Ed25519 verification gives for a message, a signature and a public key.
pub open spec fn ed25519_verify_result(
    message: Seq<u8>,
    signature: TaggedBytes,
    public_key: TaggedBytes,
    r: Result<bool, SignatureError>,
) -> bool {
    if signature.algorithm != SignatureAlgorithm::Ed25519 {
        r matches Err(SignatureError::AlgorithmMismatch { expected, actual })
            && expected@ == "Ed25519"@ && actual@ == signature.algorithm.spec_display()
    } else if public_key.algorithm != SignatureAlgorithm::Ed25519 {
        r matches Err(SignatureError::AlgorithmMismatch { expected, actual })
            && expected@ == "Ed25519"@ && actual@ == public_key.algorithm.spec_display()
    } else if public_key.bytes.len() != 32 || !ed25519_key_valid_spec(public_key.bytes) {
        r matches Err(SignatureError::InvalidPublicKey)
    } else if signature.bytes.len() != 64 {
        r matches Err(SignatureError::InvalidSignature)
    } else {
        r == Ok::<bool, SignatureError>(ed25519_verify_spec(public_key.bytes, message, signature.bytes))
    }
}

/// What holds of a generated Ed25519 key pair: both keys are tagged Ed25519,
/// the secret key is a 32-byte seed and the public key is the (valid, 32-byte)
/// key derived from it.
pub open spec fn ed25519_keypair_result(r: Result<(PublicKey, SecretKey), SignatureError>) -> bool {
    r matches Ok((pk, sk)) && pk.algorithm == SignatureAlgorithm::Ed25519
        && sk.algorithm == SignatureAlgorithm::Ed25519 && sk.bytes@.len() == 32
        && pk.bytes@ == ed25519_public_spec(sk.bytes@) && pk.bytes@.len() == 32
        && ed25519_key_valid_spec(pk.bytes@)
}

pub struct Ed25519Scheme;

impl Ed25519Scheme {
    pub fn new() -> (r: Ed25519Scheme) {
        Ed25519Scheme
    }
}

/// Copies a byte slice into an array of its length.
fn to_array32(b: &[u8]) -> (r: [u8; 32])
    requires
        b@.len() == 32,
    ensures
        r@ == b@,
{
    let mut a = [0u8; 32];
    let mut i: usize = 0;
    while i < 32
        invariant
            0 <= i <= 32,
            b@.len() == 32,
            forall|j: int| 0 <= j < i ==> a@[j] == b@[j],
        decreases 32 - i,
    {
        a[i] = b[i];
        i = i + 1;
    }
    assert(a@ =~= b@);
    a
}

fn to_array64(b: &[u8]) -> (r: [u8; 64])
    requires
        b@.len() == 64,
    ensures
        r@ == b@,
{
    let mut a = [0u8; 64];
    let mut i: usize = 0;
    while i < 64
        invariant
            0 <= i <= 64,
            b@.len() == 64,
            forall|j: int| 0 <= j < i ==> a@[j] == b@[j],
        decreases 64 - i,
    {
        a[i] = b[i];
        i = i + 1;
    }
    assert(a@ =~= b@);
    a
}

impl SignatureScheme for Ed25519Scheme {
    open spec fn spec_algorithm(&self) -> SignatureAlgorithm {
        SignatureAlgorithm::Ed25519
    }

    open spec fn keypair_post(&self, r: Result<(PublicKey, SecretKey), SignatureError>) -> bool {
        ed25519_keypair_result(r)
    }

    open spec fn sign_post(
        &self,
        message: Seq<u8>,
        secret_key: TaggedBytes,
        r: Result<Signature, SignatureError>,
    ) -> bool {
        ed25519_sign_result(message, secret_key, r)
    }

    open spec fn verify_post(
        &self,
        message: Seq<u8>,
        signature: TaggedBytes,
        public_key: TaggedBytes,
        r: Result<bool, SignatureError>,
    ) -> bool {
        ed25519_verify_result(message, signature, public_key, r)
    }

    fn generate_keypair(&self) -> (r: Result<(PublicKey, SecretKey), SignatureError>) {
        let seed = ed25519_generate_seed();
        let public = ed25519_public_key(&seed);
        let public_key = match PublicKey::new(
            SignatureAlgorithm::Ed25519,
            vstd::slice::slice_to_vec(public.as_slice()),
        ) {
            Ok(k) => k,
            Err(e) => {
                return Err(e);
            },
        };
        let secret_key = SecretKey::new(
            SignatureAlgorithm::Ed25519,
            vstd::slice::slice_to_vec(seed.as_slice()),
        );
        Ok((public_key, secret_key))
    }

    fn sign(&self, message: &[u8], secret_key: &SecretKey) -> (r: Result<Signature, SignatureError>) {
        if secret_key.algorithm != SignatureAlgorithm::Ed25519 {
            return Err(
                SignatureError::AlgorithmMismatch {
                    expected: String::from_str("ED25519"),
                    actual: secret_key.algorithm.to_string(),
                },
            );
        }
        if secret_key.as_bytes().len() != 32 {
            return Err(SignatureError::InvalidSecretKey);
        }
        let seed = to_array32(secret_key.as_bytes());
        let sig = ed25519_sign(&seed, message);
        Signature::new(SignatureAlgorithm::Ed25519, vstd::slice::slice_to_vec(sig.as_slice()))
    }

    fn verify(&self, message: &[u8], signature: &Signature, public_key: &PublicKey) -> (r: Result<
        bool,
        SignatureError,
    >) {
        if signature.algorithm != SignatureAlgorithm::Ed25519 {
            return Err(
                SignatureError::AlgorithmMismatch {
                    expected: String::from_str("Ed25519"),
                    actual: signature.algorithm.to_string(),
                },
            );
        }
        if public_key.algorithm != SignatureAlgorithm::Ed25519 {
            return Err(
                SignatureError::AlgorithmMismatch {
                    expected: String::from_str("Ed25519"),
                    actual: public_key.algorithm.to_string(),
                },
            );
        }
        if public_key.as_bytes().len() != 32 {
            return Err(SignatureError::InvalidPublicKey);
        }
        let pk = to_array32(public_key.as_bytes());
        if !ed25519_key_valid(&pk) {
            return Err(SignatureError::InvalidPublicKey);
        }
        if signature.as_bytes().len() != 64 {
            return Err(SignatureError::InvalidSignature);
        }
        let sig = to_array64(signature.as_bytes());
        Ok(ed25519_verify(&pk, message, &sig))
    }

    fn algorithm(&self) -> (r: SignatureAlgorithm) {
        SignatureAlgorithm::Ed25519
    }
}

/// A signature made with an Ed25519 secret key verifies, on the same message,
/// under the public key derived from that secret key.
pub proof fn lemma_sign_then_verify(
    message: Seq<u8>,
    secret_key: TaggedBytes,
    public_key: TaggedBytes,
    signed: Result<Signature, SignatureError>,
    verified: Result<bool, SignatureError>,
)
    requires
        secret_key.algorithm == SignatureAlgorithm::Ed25519,
        secret_key.bytes.len() == 32,
        public_key.algorithm == SignatureAlgorithm::Ed25519,
        public_key.bytes == ed25519_public_spec(secret_key.bytes),
        public_key.bytes.len() == 32,
        ed25519_key_valid_spec(public_key.bytes),
        ed25519_sign_result(message, secret_key, signed),
        signed matches Ok(sig) && ed25519_verify_result(message, sig@, public_key, verified),
    ensures
        verified == Ok::<bool, SignatureError>(true),
{
}

} // verus!
