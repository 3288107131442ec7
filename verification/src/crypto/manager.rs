//! The signature manager: a registry of signature schemes, one per algorithm,
//! through which keys are generated and messages signed and verified.
use std::collections::HashMap;
use std::sync::Arc;
use vstd::prelude::*;
use crate::crypto::address::{Address, NetworkId, address_bytes_spec};
use crate::crypto::algorithm::SignatureAlgorithm;
use crate::crypto::schemes::ed25519_scheme::Ed25519Scheme;
use crate::crypto::signature::{PublicKey, SecretKey, Signature, SignatureError, SignatureScheme, TaggedBytes};

verus! {

/// The value an `Arc` points to.
pub open spec fn arc_inner<T>(a: &Arc<T>) -> T {
    **a
}

/// Central manager for signature schemes.
///
/// It holds at most one scheme per algorithm, keyed by the algorithm's
/// identifier byte; registering a scheme for an algorithm replaces the one held
/// before. Key generation, signing and verification go to the scheme
/// registered for the algorithm concerned.
pub struct SignatureManager<S: SignatureScheme> {
    schemes: HashMap<u8, Arc<S>>,
}

impl<S: SignatureScheme> SignatureManager<S> {
    /// Each scheme is held under its algorithm's identifier byte.
    #[verifier::type_invariant]
    spec fn keyed_by_algorithm(self) -> bool {
        forall|k: u8| #[trigger] self.schemes@.contains_key(k) ==> (*self.schemes@[k]).spec_algorithm().spec_id() == k
    }

    /// The scheme registered for each algorithm.
    pub closed spec fn registry(self) -> Map<SignatureAlgorithm, S> {
        Map::new(
            |a: SignatureAlgorithm| self.schemes@.contains_key(a.spec_id()),
            |a: SignatureAlgorithm| *self.schemes@[a.spec_id()],
        )
    }

    /// The scheme registered for an algorithm, if any.
    pub open spec fn lookup(self, algorithm: SignatureAlgorithm) -> Option<S> {
        if self.registry().contains_key(algorithm) {
            Some(self.registry()[algorithm])
        } else {
            None
        }
    }

    /// What signing `message` with `secret_key` gives: an unsupported-algorithm
    /// error without a scheme for the key's algorithm, otherwise what that
    /// scheme's signing gives.
    pub open spec fn sign_post(
        self,
        message: Seq<u8>,
        secret_key: TaggedBytes,
        r: Result<Signature, SignatureError>,
    ) -> bool {
        match self.lookup(secret_key.algorithm) {
            None => r matches Err(SignatureError::UnsupportedAlgorithm(a)) && a == secret_key.algorithm,
            Some(s) => s.sign_post(message, secret_key, r),
        }
    }

    /// What verifying gives: an algorithm-mismatch error when the signature's
    /// and the key's algorithms differ, an unsupported-algorithm error without a
    /// scheme for it, otherwise what that scheme's verification gives.
    pub open spec fn verify_post(
        self,
        message: Seq<u8>,
        signature: TaggedBytes,
        public_key: TaggedBytes,
        r: Result<bool, SignatureError>,
    ) -> bool {
        if signature.algorithm != public_key.algorithm {
            r matches Err(SignatureError::AlgorithmMismatch { expected, actual })
                && expected@ == public_key.algorithm.spec_display()
                && actual@ == signature.algorithm.spec_display()
        } else {
            match self.lookup(signature.algorithm) {
                None => r matches Err(SignatureError::UnsupportedAlgorithm(a)) && a == signature.algorithm,
                Some(s) => s.verify_post(message, signature, public_key, r),
            }
        }
    }

    /// A manager holding no scheme; schemes are added with `register_scheme`.
    pub fn empty() -> (r: SignatureManager<S>)
        ensures
            r.registry() == Map::<SignatureAlgorithm, S>::empty(),
    {
        broadcast use vstd::std_specs::hash::group_hash_axioms;
        let r = SignatureManager { schemes: HashMap::new() };
        assert(r.registry() =~= Map::<SignatureAlgorithm, S>::empty());
        r
    }

    /// The scheme registered for `algorithm`.
    fn find(&self, algorithm: SignatureAlgorithm) -> (r: Option<&Arc<S>>)
        ensures
            match r {
                Some(s) => self.lookup(algorithm) == Some(**s),
                None => self.lookup(algorithm) is None,
            },
    {
        broadcast use vstd::std_specs::hash::group_hash_axioms;
        let id = algorithm.to_u8();
        self.schemes.get(&id)
    }

    /// Registers a scheme under its algorithm, replacing any scheme held for it.
    pub fn register_scheme(&mut self, scheme: Arc<S>)
        ensures
            final(self).registry() == old(self).registry().insert((*scheme).spec_algorithm(), *scheme),
    {
        broadcast use vstd::std_specs::hash::group_hash_axioms;
        proof {
            use_type_invariant(&*self);
        }
        let algorithm = scheme.algorithm();
        let ghost before = self.registry();
        let ghost target = before.insert(algorithm, arc_inner(&scheme));
        let id = algorithm.to_u8();
        let mut schemes: HashMap<u8, Arc<S>> = HashMap::new();
        std::mem::swap(&mut schemes, &mut self.schemes);
        schemes.insert(id, scheme);
        self.schemes = schemes;
        proof {
            assert forall|a: SignatureAlgorithm| #[trigger] self.registry().contains_key(a) <==> target.contains_key(a) by {
                crate::crypto::algorithm::lemma_id_injective(a, algorithm);
            }
            assert forall|a: SignatureAlgorithm| #[trigger] self.registry().contains_key(a) implies self.registry()[a] == target[a] by {
                crate::crypto::algorithm::lemma_id_injective(a, algorithm);
            }
            assert(self.registry() =~= target);
        }
    }

    pub fn generate_keypair(&self, algorithm: SignatureAlgorithm) -> (r: Result<
        (PublicKey, SecretKey),
        SignatureError,
    >)
        ensures
            match self.lookup(algorithm) {
                None => r matches Err(SignatureError::UnsupportedAlgorithm(a)) && a == algorithm,
                Some(s) => s.keypair_post(r),
            },
    {
        match self.find(algorithm) {
            None => Err(SignatureError::UnsupportedAlgorithm(algorithm)),
            Some(s) => s.generate_keypair(),
        }
    }

    /// Generates a key pair and derives its address on `network`.
    pub fn generate_wallet(&self, algorithm: SignatureAlgorithm, network: NetworkId) -> (r: Result<
        (Address, PublicKey, SecretKey),
        SignatureError,
    >)
        ensures
            match self.lookup(algorithm) {
                None => r matches Err(SignatureError::UnsupportedAlgorithm(a)) && a == algorithm,
                Some(s) => match r {
                    Ok((address, pk, sk)) => s.keypair_post(Ok((pk, sk))) && address@
                        == address_bytes_spec(network.spec_id(), pk.algorithm.spec_id(), pk.bytes@),
                    Err(e) => s.keypair_post(Err(e)),
                },
            },
    {
        let (pk, sk) = match self.generate_keypair(algorithm) {
            Ok(kp) => kp,
            Err(e) => {
                return Err(e);
            },
        };
        let address = match pk.derive_address(network) {
            Ok(a) => a,
            Err(e) => {
                return Err(e);
            },
        };
        Ok((address, pk, sk))
    }

    pub fn sign(&self, message: &[u8], secret_key: &SecretKey) -> (r: Result<Signature, SignatureError>)
        ensures
            self.sign_post(message@, secret_key@, r),
    {
        match self.find(secret_key.algorithm) {
            None => Err(SignatureError::UnsupportedAlgorithm(secret_key.algorithm)),
            Some(s) => s.sign(message, secret_key),
        }
    }

    /// Verifies a signature; the signature's and the key's algorithms must agree.
    pub fn verify(&self, message: &[u8], signature: &Signature, public_key: &PublicKey) -> (r: Result<
        bool,
        SignatureError,
    >)
        ensures
            self.verify_post(message@, signature@, public_key@, r),
    {
        if signature.algorithm != public_key.algorithm {
            return Err(
                SignatureError::AlgorithmMismatch {
                    expected: public_key.algorithm.to_string(),
                    actual: signature.algorithm.to_string(),
                },
            );
        }
        match self.find(signature.algorithm) {
            None => Err(SignatureError::UnsupportedAlgorithm(signature.algorithm)),
            Some(s) => s.verify(message, signature, public_key),
        }
    }

    pub fn is_supported(&self, algorithm: SignatureAlgorithm) -> (r: bool)
        ensures
            r == self.registry().contains_key(algorithm),
    {
        self.find(algorithm).is_some()
    }

    /// The algorithms with a registered scheme, each once.
    pub fn supported_algorithms(&self) -> (r: Vec<SignatureAlgorithm>)
        ensures
            r@.to_set() == self.registry().dom(),
            r@.no_duplicates(),
    {
        broadcast use vstd::std_specs::hash::group_hash_axioms;
        proof {
            use_type_invariant(self);
        }
        let mut out: Vec<SignatureAlgorithm> = Vec::new();
        for k in it: self.schemes.keys()
            invariant
                self.keyed_by_algorithm(),
                it.seq().unref().to_set() == self.schemes@.dom(),
                it.seq().no_duplicates(),
                out@.len() == it.index(),
                forall|j: int| 0 <= j < it.index() ==> (#[trigger] out@[j]).spec_id() == *it.seq()[j],
            ensures
                exists|keys: Seq<u8>|
                    #![trigger keys.to_set()]
                    keys.to_set() == self.schemes@.dom() && keys.no_duplicates() && keys.len() == out@.len()
                        && forall|j: int| 0 <= j < out@.len() ==> (#[trigger] out@[j]).spec_id() == keys[j],
        {
            let ghost i = it.index();
            assert(self.schemes@.dom().contains(*it.seq()[i]));
            let a = (*self.schemes.get(k).unwrap()).algorithm();
            out.push(a);
        }
        proof {
            let keys = choose|keys: Seq<u8>|
                #![trigger keys.to_set()]
                keys.to_set() == self.schemes@.dom() && keys.no_duplicates() && keys.len() == out@.len()
                    && forall|j: int| 0 <= j < out@.len() ==> (#[trigger] out@[j]).spec_id() == keys[j];
            assert forall|i: int, j: int| 0 <= i < out@.len() && 0 <= j < out@.len() && i != j implies out@[i] != out@[j] by {
                if out@[i] == out@[j] {
                    assert(keys[i] == keys[j]);
                }
            }
            assert forall|a: SignatureAlgorithm| #[trigger] out@.to_set().contains(a) <==> self.registry().dom().contains(a) by {
                if out@.to_set().contains(a) {
                    let j = choose|j: int| 0 <= j < out@.len() && out@[j] == a;
                    assert(keys[j] == a.spec_id());
                    assert(keys.to_set().contains(a.spec_id()));
                }
                if self.registry().dom().contains(a) {
                    assert(keys.to_set().contains(a.spec_id()));
                    let j = choose|j: int| 0 <= j < keys.len() && keys[j] == a.spec_id();
                    assert(out@[j].spec_id() == a.spec_id());
                    crate::crypto::algorithm::lemma_id_injective(out@[j], a);
                    assert(out@.contains(a));
                }
            }
            assert(out@.to_set() =~= self.registry().dom());
        }
        out
    }
}

impl SignatureManager<Ed25519Scheme> {
    /// A manager holding the Ed25519 scheme.
    pub fn new() -> (r: SignatureManager<Ed25519Scheme>)
        ensures
            r.registry() == map![SignatureAlgorithm::Ed25519 => Ed25519Scheme],
    {
        let mut manager = Self::empty();
        manager.register_scheme(Arc::new(Ed25519Scheme::new()));
        proof {
            assert(manager.registry() =~= map![SignatureAlgorithm::Ed25519 => Ed25519Scheme]);
        }
        manager
    }
}

/// With the Ed25519 scheme registered, a signature that the manager made with a
/// key pair it generated verifies, on the same message, under that pair's
/// public key.
pub proof fn lemma_manager_sign_then_verify(
    manager: SignatureManager<Ed25519Scheme>,
    message: Seq<u8>,
    public_key: PublicKey,
    secret_key: SecretKey,
    signature: Signature,
    verified: Result<bool, SignatureError>,
)
    requires
        manager.lookup(SignatureAlgorithm::Ed25519) is Some,
        manager.lookup(SignatureAlgorithm::Ed25519)->0.keypair_post(Ok((public_key, secret_key))),
        manager.sign_post(message, secret_key@, Ok(signature)),
        manager.verify_post(message, signature@, public_key@, verified),
    ensures
        verified == Ok::<bool, SignatureError>(true),
{
    crate::crypto::schemes::ed25519_scheme::lemma_sign_then_verify(
        message,
        secret_key@,
        public_key@,
        Ok(signature),
        verified,
    );
}

impl Default for SignatureManager<Ed25519Scheme> {
    fn default() -> (r: SignatureManager<Ed25519Scheme>)
        ensures
            r.registry() == map![SignatureAlgorithm::Ed25519 => Ed25519Scheme],
    {
        Self::new()
    }
}

} // verus!
