use vstd::prelude::*;

verus! {

/// Enumeration of all supported signature algorithms.
///
/// Identifiers 0-99 are reserved for classical algorithms, 100-199 for
/// post-quantum algorithms and 200-255 for hybrid schemes; `to_u8` gives each
/// variant its identifier.
#[derive(Debug, Clone, Copy, PartialEq, Eq, Hash, Structural)]
pub enum SignatureAlgorithm {
    /// Ed25519: 32-byte keys, 64-byte signatures
    Ed25519,
    /// ML-DSA-65 (Dilithium3): NIST Level 3 security
    MlDsa65,
    /// ML-DSA-87 (Dilithium5): NIST Level 5 security
    MlDsa87,
    /// SLH-DSA-SHAKE-128f (SPHINCS+-128f)
    SlhDsaShake128f,
    /// SLH-DSA-SHAKE-256f (SPHINCS+-256f)
    SlhDsaShake256f,
    /// Hybrid: Ed25519 + ML-DSA-65; both signatures must verify
    HybridEd25519MlDsa65,
    /// Hybrid: Ed25519 + SLH-DSA-SHAKE-128f
    HybridEd25519SlhDsa128f,
}

impl SignatureAlgorithm {
    /// The identifier byte of each algorithm.
    pub open spec fn spec_id(self) -> u8 {
        match self {
            SignatureAlgorithm::Ed25519 => 0,
            SignatureAlgorithm::MlDsa65 => 100,
            SignatureAlgorithm::MlDsa87 => 101,
            SignatureAlgorithm::SlhDsaShake128f => 110,
            SignatureAlgorithm::SlhDsaShake256f => 111,
            SignatureAlgorithm::HybridEd25519MlDsa65 => 200,
            SignatureAlgorithm::HybridEd25519SlhDsa128f => 201,
        }
    }

    /// The algorithm with a given identifier byte, if any.
    pub open spec fn spec_from_id(value: u8) -> Option<SignatureAlgorithm> {
        if value == 0 {
            Some(SignatureAlgorithm::Ed25519)
        } else if value == 100 {
            Some(SignatureAlgorithm::MlDsa65)
        } else if value == 101 {
            Some(SignatureAlgorithm::MlDsa87)
        } else if value == 110 {
            Some(SignatureAlgorithm::SlhDsaShake128f)
        } else if value == 111 {
            Some(SignatureAlgorithm::SlhDsaShake256f)
        } else if value == 200 {
            Some(SignatureAlgorithm::HybridEd25519MlDsa65)
        } else if value == 201 {
            Some(SignatureAlgorithm::HybridEd25519SlhDsa128f)
        } else {
            None
        }
    }

    pub open spec fn spec_public_key_size(self) -> usize {
        match self {
            SignatureAlgorithm::Ed25519 => 32,
            SignatureAlgorithm::MlDsa65 => 1952,
            SignatureAlgorithm::MlDsa87 => 2592,
            SignatureAlgorithm::SlhDsaShake128f => 32,
            SignatureAlgorithm::SlhDsaShake256f => 64,
            SignatureAlgorithm::HybridEd25519MlDsa65 => 1984,
            SignatureAlgorithm::HybridEd25519SlhDsa128f => 64,
        }
    }

    pub open spec fn spec_signature_size(self) -> usize {
        match self {
            SignatureAlgorithm::Ed25519 => 64,
            SignatureAlgorithm::MlDsa65 => 3293,
            SignatureAlgorithm::MlDsa87 => 4595,
            SignatureAlgorithm::SlhDsaShake128f => 17088,
            SignatureAlgorithm::SlhDsaShake256f => 49856,
            SignatureAlgorithm::HybridEd25519MlDsa65 => 3357,
            SignatureAlgorithm::HybridEd25519SlhDsa128f => 17152,
        }
    }

    pub open spec fn spec_is_quantum_resistant(self) -> bool {
        !(self is Ed25519)
    }

    pub open spec fn spec_nist_security_level(self) -> u8 {
        match self {
            SignatureAlgorithm::Ed25519 => 0,
            SignatureAlgorithm::MlDsa65 => 3,
            SignatureAlgorithm::MlDsa87 => 5,
            SignatureAlgorithm::SlhDsaShake128f => 1,
            SignatureAlgorithm::SlhDsaShake256f => 5,
            SignatureAlgorithm::HybridEd25519MlDsa65 => 3,
            SignatureAlgorithm::HybridEd25519SlhDsa128f => 1,
        }
    }

    /// The human-readable name of each algorithm.
    pub open spec fn spec_display(self) -> Seq<char> {
        match self {
            SignatureAlgorithm::Ed25519 => "Ed25519"@,
            SignatureAlgorithm::MlDsa65 => "ML-DSA-65"@,
            SignatureAlgorithm::MlDsa87 => "ML-DSA-87"@,
            SignatureAlgorithm::SlhDsaShake128f => "SLH-DSA-SHAKE-128f"@,
            SignatureAlgorithm::SlhDsaShake256f => "SLH-DSA-SHAKE-256f"@,
            SignatureAlgorithm::HybridEd25519MlDsa65 => "Hybrid(Ed25519+ML-DSA-65)"@,
            SignatureAlgorithm::HybridEd25519SlhDsa128f => "Hybrid(Ed25519+SLH-DSA-128f)"@,
        }
    }

    /// The variant's own name, as a serialisation of the enum writes it.
    pub open spec fn spec_variant_name(self) -> Seq<char> {
        match self {
            SignatureAlgorithm::Ed25519 => "Ed25519"@,
            SignatureAlgorithm::MlDsa65 => "MlDsa65"@,
            SignatureAlgorithm::MlDsa87 => "MlDsa87"@,
            SignatureAlgorithm::SlhDsaShake128f => "SlhDsaShake128f"@,
            SignatureAlgorithm::SlhDsaShake256f => "SlhDsaShake256f"@,
            SignatureAlgorithm::HybridEd25519MlDsa65 => "HybridEd25519MlDsa65"@,
            SignatureAlgorithm::HybridEd25519SlhDsa128f => "HybridEd25519SlhDsa128f"@,
        }
    }

    pub fn public_key_size(&self) -> (r: usize)
        ensures
            r == self.spec_public_key_size(),
    {
        match self {
            SignatureAlgorithm::Ed25519 => 32,
            SignatureAlgorithm::MlDsa65 => 1952,
            SignatureAlgorithm::MlDsa87 => 2592,
            SignatureAlgorithm::SlhDsaShake128f => 32,
            SignatureAlgorithm::SlhDsaShake256f => 64,
            SignatureAlgorithm::HybridEd25519MlDsa65 => 1984,
            SignatureAlgorithm::HybridEd25519SlhDsa128f => 64,
        }
    }

    pub fn signature_size(&self) -> (r: usize)
        ensures
            r == self.spec_signature_size(),
    {
        match self {
            SignatureAlgorithm::Ed25519 => 64,
            SignatureAlgorithm::MlDsa65 => 3293,
            SignatureAlgorithm::MlDsa87 => 4595,
            SignatureAlgorithm::SlhDsaShake128f => 17088,
            SignatureAlgorithm::SlhDsaShake256f => 49856,
            SignatureAlgorithm::HybridEd25519MlDsa65 => 3357,
            SignatureAlgorithm::HybridEd25519SlhDsa128f => 17152,
        }
    }

    pub fn is_quantum_resistant(&self) -> (r: bool)
        ensures
            r == self.spec_is_quantum_resistant(),
    {
        match self {
            SignatureAlgorithm::Ed25519 => false,
            SignatureAlgorithm::MlDsa65
            | SignatureAlgorithm::MlDsa87
            | SignatureAlgorithm::SlhDsaShake128f
            | SignatureAlgorithm::SlhDsaShake256f
            | SignatureAlgorithm::HybridEd25519MlDsa65
            | SignatureAlgorithm::HybridEd25519SlhDsa128f => true,
        }
    }

    /// NIST security level; 0 stands for "not applicable" (classical Ed25519).
    pub fn nist_security_level(&self) -> (r: u8)
        ensures
            r == self.spec_nist_security_level(),
    {
        match self {
            SignatureAlgorithm::Ed25519 => 0,
            SignatureAlgorithm::MlDsa65 => 3,
            SignatureAlgorithm::MlDsa87 => 5,
            SignatureAlgorithm::SlhDsaShake128f => 1,
            SignatureAlgorithm::SlhDsaShake256f => 5,
            SignatureAlgorithm::HybridEd25519MlDsa65 => 3,
            SignatureAlgorithm::HybridEd25519SlhDsa128f => 1,
        }
    }

    pub fn from_u8(value: u8) -> (r: Option<SignatureAlgorithm>)
        ensures
            r == Self::spec_from_id(value),
    {
        match value {
            0 => Some(SignatureAlgorithm::Ed25519),
            100 => Some(SignatureAlgorithm::MlDsa65),
            101 => Some(SignatureAlgorithm::MlDsa87),
            110 => Some(SignatureAlgorithm::SlhDsaShake128f),
            111 => Some(SignatureAlgorithm::SlhDsaShake256f),
            200 => Some(SignatureAlgorithm::HybridEd25519MlDsa65),
            201 => Some(SignatureAlgorithm::HybridEd25519SlhDsa128f),
            _ => None,
        }
    }

    pub fn to_u8(&self) -> (r: u8)
        ensures
            r == self.spec_id(),
    {
        match self {
            SignatureAlgorithm::Ed25519 => 0,
            SignatureAlgorithm::MlDsa65 => 100,
            SignatureAlgorithm::MlDsa87 => 101,
            SignatureAlgorithm::SlhDsaShake128f => 110,
            SignatureAlgorithm::SlhDsaShake256f => 111,
            SignatureAlgorithm::HybridEd25519MlDsa65 => 200,
            SignatureAlgorithm::HybridEd25519SlhDsa128f => 201,
        }
    }

    /// The human-readable name (what the algorithm prints as).
    pub fn to_string(&self) -> (r: String)
        ensures
            r@ == self.spec_display(),
    {
        let s: &str = match self {
            SignatureAlgorithm::Ed25519 => "Ed25519",
            SignatureAlgorithm::MlDsa65 => "ML-DSA-65",
            SignatureAlgorithm::MlDsa87 => "ML-DSA-87",
            SignatureAlgorithm::SlhDsaShake128f => "SLH-DSA-SHAKE-128f",
            SignatureAlgorithm::SlhDsaShake256f => "SLH-DSA-SHAKE-256f",
            SignatureAlgorithm::HybridEd25519MlDsa65 => "Hybrid(Ed25519+ML-DSA-65)",
            SignatureAlgorithm::HybridEd25519SlhDsa128f => "Hybrid(Ed25519+SLH-DSA-128f)",
        };
        String::from_str(s)
    }
}

/// Every algorithm's identifier byte decodes back to that algorithm.
pub proof fn lemma_id_roundtrip(alg: SignatureAlgorithm)
    ensures
        SignatureAlgorithm::spec_from_id(alg.spec_id()) == Some(alg),
{
}

/// A byte that decodes to an algorithm is that algorithm's identifier.
pub proof fn lemma_from_id_inverse(value: u8)
    ensures
        SignatureAlgorithm::spec_from_id(value) matches Some(alg) ==> alg.spec_id() == value,
{
}

/// Distinct algorithms have distinct identifiers.
pub proof fn lemma_id_injective(a: SignatureAlgorithm, b: SignatureAlgorithm)
    ensures
        a.spec_id() == b.spec_id() ==> a == b,
{
}

/// Every quantum-resistant algorithm has a NIST level of at least 1, and the
/// classical one has level 0.
pub proof fn lemma_levels_consistent(alg: SignatureAlgorithm)
    ensures
        alg.spec_is_quantum_resistant() <==> alg.spec_nist_security_level() >= 1,
{
}

/// Every algorithm's public key and signature have the sizes that its
/// standard fixes: Ed25519 32 and 64 bytes, ML-DSA-65 1952 and 3293, ML-DSA-87
/// 2592 and 4595, SLH-DSA-SHAKE-128f 32 and 17088, SLH-DSA-SHAKE-256f 64 and
/// 49856, and each hybrid the sum of its two parts.
pub proof fn lemma_standard_sizes(alg: SignatureAlgorithm)
    ensures
        alg == SignatureAlgorithm::Ed25519 ==> alg.spec_public_key_size() == 32 && alg.spec_signature_size() == 64,
        alg == SignatureAlgorithm::MlDsa65 ==> alg.spec_public_key_size() == 1952 && alg.spec_signature_size() == 3293,
        alg == SignatureAlgorithm::MlDsa87 ==> alg.spec_public_key_size() == 2592 && alg.spec_signature_size() == 4595,
        alg == SignatureAlgorithm::SlhDsaShake128f ==> alg.spec_public_key_size() == 32 && alg.spec_signature_size()
            == 17088,
        alg == SignatureAlgorithm::SlhDsaShake256f ==> alg.spec_public_key_size() == 64 && alg.spec_signature_size()
            == 49856,
        alg == SignatureAlgorithm::HybridEd25519MlDsa65 ==> alg.spec_public_key_size() == 32 + 1952
            && alg.spec_signature_size() == 64 + 3293,
        alg == SignatureAlgorithm::HybridEd25519SlhDsa128f ==> alg.spec_public_key_size() == 32 + 32
            && alg.spec_signature_size() == 64 + 17088,
        alg.spec_public_key_size() >= 32,
        alg.spec_signature_size() >= 64,
{
}

/// A hybrid scheme's key and signature sizes are the sums of its parts.
pub proof fn lemma_hybrid_sizes()
    ensures
        SignatureAlgorithm::HybridEd25519MlDsa65.spec_public_key_size()
            == SignatureAlgorithm::Ed25519.spec_public_key_size()
            + SignatureAlgorithm::MlDsa65.spec_public_key_size(),
        SignatureAlgorithm::HybridEd25519MlDsa65.spec_signature_size()
            == SignatureAlgorithm::Ed25519.spec_signature_size()
            + SignatureAlgorithm::MlDsa65.spec_signature_size(),
        SignatureAlgorithm::HybridEd25519SlhDsa128f.spec_public_key_size()
            == SignatureAlgorithm::Ed25519.spec_public_key_size()
            + SignatureAlgorithm::SlhDsaShake128f.spec_public_key_size(),
        SignatureAlgorithm::HybridEd25519SlhDsa128f.spec_signature_size()
            == SignatureAlgorithm::Ed25519.spec_signature_size()
            + SignatureAlgorithm::SlhDsaShake128f.spec_signature_size(),
{
}

} // verus!
