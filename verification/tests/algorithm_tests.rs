use chain_core::crypto::algorithm::SignatureAlgorithm;

#[test]
fn sizes_match_documented_values() {
    assert_eq!(SignatureAlgorithm::Ed25519.public_key_size(), 32);
    assert_eq!(SignatureAlgorithm::MlDsa65.signature_size(), 3293);
    assert_eq!(SignatureAlgorithm::HybridEd25519SlhDsa128f.public_key_size(), 64);
}

#[test]
fn quantum_resistance_flags() {
    assert!(!SignatureAlgorithm::Ed25519.is_quantum_resistant());
    assert!(SignatureAlgorithm::SlhDsaShake256f.is_quantum_resistant());
}

#[test]
fn nist_levels_are_consistent() {
    assert_eq!(SignatureAlgorithm::MlDsa87.nist_security_level(), 5);
    assert_eq!(SignatureAlgorithm::SlhDsaShake128f.nist_security_level(), 1);
}

#[test]
fn to_from_u8_roundtrip() {
    for algo in [
        SignatureAlgorithm::Ed25519,
        SignatureAlgorithm::MlDsa65,
        SignatureAlgorithm::SlhDsaShake256f,
        SignatureAlgorithm::HybridEd25519MlDsa65,
    ] {
        let byte = algo.to_u8();
        assert_eq!(SignatureAlgorithm::from_u8(byte), Some(algo));
    }
    assert!(SignatureAlgorithm::from_u8(0xFF).is_none());
}

#[test]
fn identifier_bytes_match_reserved_ranges() {
    assert_eq!(SignatureAlgorithm::Ed25519.to_u8(), 0);
    assert_eq!(SignatureAlgorithm::MlDsa65.to_u8(), 100);
    assert_eq!(SignatureAlgorithm::MlDsa87.to_u8(), 101);
    assert_eq!(SignatureAlgorithm::SlhDsaShake128f.to_u8(), 110);
    assert_eq!(SignatureAlgorithm::SlhDsaShake256f.to_u8(), 111);
    assert_eq!(SignatureAlgorithm::HybridEd25519MlDsa65.to_u8(), 200);
    assert_eq!(SignatureAlgorithm::HybridEd25519SlhDsa128f.to_u8(), 201);
    for b in 0u8..=255 {
        if let Some(a) = SignatureAlgorithm::from_u8(b) {
            assert_eq!(a.to_u8(), b);
        }
    }
}

#[test]
fn hybrid_sizes_are_sums_and_names_print() {
    assert_eq!(SignatureAlgorithm::HybridEd25519MlDsa65.public_key_size(), 32 + 1952);
    assert_eq!(SignatureAlgorithm::HybridEd25519MlDsa65.signature_size(), 64 + 3293);
    assert_eq!(SignatureAlgorithm::HybridEd25519SlhDsa128f.signature_size(), 64 + 17088);
    assert_eq!(SignatureAlgorithm::MlDsa65.to_string(), "ML-DSA-65");
    assert_eq!(SignatureAlgorithm::HybridEd25519MlDsa65.to_string(), "Hybrid(Ed25519+ML-DSA-65)");
    assert_eq!(SignatureAlgorithm::Ed25519.nist_security_level(), 0);
}
