use sha2::{Digest, Sha256};
use chain_core::crypto::address::{Address, AddressError, NetworkId};
use chain_core::crypto::algorithm::SignatureAlgorithm;
use chain_core::crypto::manager::SignatureManager;
use chain_core::crypto::schemes::ed25519_scheme::Ed25519Scheme;
use chain_core::crypto::signature::{PublicKey, SecretKey, Signature, SignatureError, SignatureScheme};

#[test]
fn test_manager_basic_operations() {
    let manager = SignatureManager::new();

    assert!(manager.is_supported(SignatureAlgorithm::Ed25519));
    assert!(!manager.is_supported(SignatureAlgorithm::MlDsa65));

    let (public_key, secret_key) = manager
        .generate_keypair(SignatureAlgorithm::Ed25519)
        .unwrap();

    let message = b"Test message";
    let signature = manager.sign(message, &secret_key).unwrap();

    assert!(manager.verify(message, &signature, &public_key).unwrap());
}

#[test]
fn test_ed25519_sign_verify() {
    let scheme = Ed25519Scheme::new();
    let (public_key, secret_key) = scheme.generate_keypair().unwrap();

    let message = b"Hello, blockchain!";
    let signature = scheme.sign(message, &secret_key).unwrap();

    assert!(scheme.verify(message, &signature, &public_key).unwrap());

    let wrong_message = b"Wrong message";
    assert!(!scheme.verify(wrong_message, &signature, &public_key).unwrap());
}

#[test]
fn test_signature_serialization() {
    let scheme = Ed25519Scheme::new();
    let (_public_key, secret_key) = scheme.generate_keypair().unwrap();

    let message = b"Test message";
    let signature = scheme.sign(message, &secret_key).unwrap();

    let wire = signature.to_wire_format();
    assert_eq!(wire[0], SignatureAlgorithm::Ed25519.to_u8());
    assert_eq!(wire.len(), 1 + 64);

    let decoded = Signature::from_wire_format(&wire).unwrap();
    assert_eq!(signature, decoded);

    let hex = signature.to_hex();
    let from_hex = Signature::from_hex(&hex).unwrap();
    assert_eq!(signature, from_hex);
}

#[test]
fn test_public_key_hex() {
    let scheme = Ed25519Scheme::new();
    let (public_key, _) = scheme.generate_keypair().unwrap();

    let hex = public_key.to_hex();
    let decoded = PublicKey::from_hex(&hex).unwrap();

    assert_eq!(public_key, decoded);
}

#[test]
fn public_key_hex_has_exact_form() {
    let pk = PublicKey::new(SignatureAlgorithm::Ed25519, vec![0xAB; 32]).unwrap();
    let text = pk.to_hex();
    assert_eq!(text, format!("00:{}", "ab".repeat(32)));
    let pk2 = PublicKey::new(SignatureAlgorithm::SlhDsaShake128f, vec![0x01; 32]).unwrap();
    assert!(pk2.to_hex().starts_with("6e:0101"));
}

#[test]
fn public_key_from_hex_rejections() {
    // no colon, two colons, bad algorithm byte, unknown algorithm, bad hex, wrong length
    assert!(matches!(PublicKey::from_hex("00"), Err(SignatureError::InvalidPublicKey)));
    assert!(matches!(PublicKey::from_hex("00:ab:cd"), Err(SignatureError::InvalidPublicKey)));
    assert!(matches!(PublicKey::from_hex("zz:abcd"), Err(SignatureError::InvalidPublicKey)));
    assert!(matches!(PublicKey::from_hex("05:abcd"), Err(SignatureError::InvalidPublicKey)));
    assert!(matches!(PublicKey::from_hex("00:abc"), Err(SignatureError::InvalidPublicKey)));
    assert!(matches!(PublicKey::from_hex("00:xy"), Err(SignatureError::InvalidPublicKey)));
    match PublicKey::from_hex("00:abcd") {
        Err(SignatureError::InvalidLength { expected, actual }) => {
            assert_eq!(expected, 32);
            assert_eq!(actual, 2);
        }
        other => panic!("unexpected {:?}", other),
    }
    // an optional plus sign and upper-case digits are accepted by the parsers
    let upper = format!("+00:{}", "AB".repeat(32));
    let pk = PublicKey::from_hex(&upper).unwrap();
    assert_eq!(pk.bytes, vec![0xAB; 32]);
}

#[test]
fn public_key_new_checks_length() {
    match PublicKey::new(SignatureAlgorithm::Ed25519, vec![1, 2, 3]) {
        Err(SignatureError::InvalidLength { expected, actual }) => {
            assert_eq!((expected, actual), (32, 3));
        }
        other => panic!("unexpected {:?}", other),
    }
    let pk = PublicKey::from_bytes(SignatureAlgorithm::SlhDsaShake256f, &[7u8; 64]).unwrap();
    assert_eq!(pk.as_bytes(), &[7u8; 64][..]);
}

#[test]
fn signature_wire_format_rejections() {
    assert!(matches!(Signature::from_wire_format(&[]), Err(SignatureError::InvalidSignature)));
    assert!(matches!(Signature::from_wire_format(&[0xFF, 1, 2]), Err(SignatureError::InvalidSignature)));
    match Signature::from_wire_format(&[0, 1, 2, 3]) {
        Err(SignatureError::InvalidLength { expected, actual }) => assert_eq!((expected, actual), (64, 3)),
        other => panic!("unexpected {:?}", other),
    }
    assert!(matches!(Signature::from_hex("0g"), Err(SignatureError::InvalidSignature)));
    assert!(matches!(Signature::from_hex("000"), Err(SignatureError::InvalidSignature)));
    let mut wire = vec![0u8];
    wire.extend_from_slice(&[0x5A; 64]);
    let sig = Signature::from_wire_format(&wire).unwrap();
    assert_eq!(sig.to_hex(), format!("00{}", "5a".repeat(64)));
    assert_eq!(Signature::from_hex(&sig.to_hex()).unwrap(), sig);
}

#[test]
fn ed25519_scheme_rejects_other_algorithms() {
    let scheme = Ed25519Scheme::new();
    let sk = SecretKey::new(SignatureAlgorithm::MlDsa65, vec![0; 32]);
    match scheme.sign(b"m", &sk) {
        Err(SignatureError::AlgorithmMismatch { expected, actual }) => {
            assert_eq!(expected, "ED25519");
            assert_eq!(actual, "ML-DSA-65");
        }
        other => panic!("unexpected {:?}", other.is_ok()),
    }
    let short = SecretKey::new(SignatureAlgorithm::Ed25519, vec![0; 31]);
    assert!(matches!(scheme.sign(b"m", &short), Err(SignatureError::InvalidSecretKey)));

    let (pk, sk) = scheme.generate_keypair().unwrap();
    let sig = scheme.sign(b"m", &sk).unwrap();
    let bad_sig = Signature { algorithm: SignatureAlgorithm::MlDsa87, bytes: sig.bytes.clone() };
    match scheme.verify(b"m", &bad_sig, &pk) {
        Err(SignatureError::AlgorithmMismatch { expected, actual }) => {
            assert_eq!(expected, "Ed25519");
            assert_eq!(actual, "ML-DSA-87");
        }
        other => panic!("unexpected {:?}", other),
    }
    let short_pk = PublicKey { algorithm: SignatureAlgorithm::Ed25519, bytes: vec![0; 31] };
    assert!(matches!(scheme.verify(b"m", &sig, &short_pk), Err(SignatureError::InvalidPublicKey)));
    let short_sig = Signature { algorithm: SignatureAlgorithm::Ed25519, bytes: vec![0; 63] };
    assert!(matches!(scheme.verify(b"m", &short_sig, &pk), Err(SignatureError::InvalidSignature)));
    assert_eq!(scheme.algorithm(), SignatureAlgorithm::Ed25519);
}

#[test]
fn ed25519_signing_is_deterministic_and_key_derived() {
    let scheme = Ed25519Scheme::new();
    let (pk, sk) = scheme.generate_keypair().unwrap();
    assert_eq!(sk.as_bytes().len(), 32);
    assert_eq!(pk.as_bytes().len(), 32);
    let a = scheme.sign(b"same", &sk).unwrap();
    let b = scheme.sign(b"same", &sk).unwrap();
    assert_eq!(a, b);
    assert_eq!(a.as_bytes().len(), 64);
}

#[test]
fn manager_errors_and_registry() {
    let mut manager: SignatureManager<Ed25519Scheme> = Default::default();
    assert_eq!(manager.supported_algorithms(), vec![SignatureAlgorithm::Ed25519]);
    match manager.generate_keypair(SignatureAlgorithm::MlDsa65) {
        Err(SignatureError::UnsupportedAlgorithm(a)) => assert_eq!(a, SignatureAlgorithm::MlDsa65),
        _ => panic!("expected unsupported"),
    }
    let (pk, sk) = manager.generate_keypair(SignatureAlgorithm::Ed25519).unwrap();
    let sig = manager.sign(b"hello", &sk).unwrap();
    let other_sig = Signature { algorithm: SignatureAlgorithm::MlDsa65, bytes: sig.bytes.clone() };
    match manager.verify(b"hello", &other_sig, &pk) {
        Err(SignatureError::AlgorithmMismatch { expected, actual }) => {
            assert_eq!(expected, "Ed25519");
            assert_eq!(actual, "ML-DSA-65");
        }
        other => panic!("unexpected {:?}", other),
    }
    let other_sk = SecretKey::new(SignatureAlgorithm::SlhDsaShake128f, vec![0; 32]);
    assert!(matches!(
        manager.sign(b"hello", &other_sk),
        Err(SignatureError::UnsupportedAlgorithm(SignatureAlgorithm::SlhDsaShake128f))
    ));
    // registering again replaces; still one entry
    manager.register_scheme(std::sync::Arc::new(Ed25519Scheme::new()));
    assert_eq!(manager.supported_algorithms().len(), 1);
    assert!(manager.verify(b"hello", &sig, &pk).unwrap());
    assert!(!manager.verify(b"hullo", &sig, &pk).unwrap());
}

#[test]
fn wallet_address_matches_key() {
    let manager = SignatureManager::new();
    let (address, pk, _sk) = manager.generate_wallet(SignatureAlgorithm::Ed25519, NetworkId::Testnet).unwrap();
    assert_eq!(address, pk.derive_address(NetworkId::Testnet).unwrap());
    assert_eq!(address.network().unwrap(), NetworkId::Testnet);
    assert_eq!(address.algorithm().unwrap(), SignatureAlgorithm::Ed25519);
    assert_eq!(address.payload().len(), 20);
}

#[test]
fn address_text_roundtrip_and_errors() {
    let pk = PublicKey::new(SignatureAlgorithm::Ed25519, vec![0xAB; 32]).unwrap();
    let a = Address::derive(&pk, NetworkId::Mainnet).unwrap();
    let text = a.to_string();
    assert_eq!(Address::from_str(&text).unwrap(), a);
    assert_eq!(a.as_bytes()[0], 0x00);
    assert_eq!(a.as_bytes()[1], 0x00);
    assert_eq!(Address::from_str("0OIl"), Err(AddressError::InvalidChecksum));
    assert_eq!(Address::from_str("1111"), Err(AddressError::InvalidLength));
    // the checksum is the first four bytes of the double SHA-256 of the prefix
    let first = Sha256::digest(&a.as_bytes()[..22]);
    let second = Sha256::digest(first);
    assert_eq!(&a.as_bytes()[22..], &second[..4]);
    let payload = ripemd::Ripemd160::digest(Sha256::digest(&pk.bytes));
    assert_eq!(a.payload(), &payload[..]);
}

#[test]
fn address_network_and_algorithm_errors() {
    let mut bytes = [0u8; 26];
    bytes[0] = 0x01;
    let a = Address::from_bytes(&bytes).unwrap();
    assert_eq!(a.network(), Err(AddressError::InvalidNetwork));
    bytes[0] = 0x6F;
    bytes[1] = 0x07;
    let b = Address::from_bytes(&bytes).unwrap();
    assert_eq!(b.network(), Ok(NetworkId::Testnet));
    assert_eq!(b.algorithm(), Err(AddressError::InvalidAlgorithm));
    assert_eq!(Address::from_bytes(&[0u8; 25]), Err(AddressError::InvalidLength));
}

#[test]
fn signature_error_messages() {
    assert_eq!(SignatureError::InvalidSignature.to_string(), "Invalid signature");
    assert_eq!(
        SignatureError::InvalidLength { expected: 64, actual: 3 }.to_string(),
        "Invalid signature length: expected 64, got 3"
    );
    assert_eq!(
        SignatureError::UnsupportedAlgorithm(SignatureAlgorithm::MlDsa87).to_string(),
        "Unsupported algorithm: ML-DSA-87"
    );
    assert_eq!(
        SignatureError::AlgorithmMismatch { expected: "a".to_string(), actual: "b".to_string() }.to_string(),
        "Algorithm mismatch: expected a, got b"
    );
    assert_eq!(SignatureError::SigningFailed("x".to_string()).to_string(), "Signing failed: x");
}

#[test]
fn address_base58_text_form() {
    let zero = Address::from_bytes(&[0u8; 26]).unwrap();
    assert_eq!(zero.to_string(), "1".repeat(26));
    assert_eq!(Address::from_str(&"1".repeat(26)).unwrap(), zero);
    let mut bytes = [0u8; 26];
    bytes[25] = 57;
    assert_eq!(Address::from_bytes(&bytes).unwrap().to_string(), format!("{}z", "1".repeat(25)));
    bytes[25] = 58;
    let a = Address::from_bytes(&bytes).unwrap();
    assert_eq!(a.to_string(), format!("{}21", "1".repeat(25)));
    assert_eq!(Address::from_str(&format!("{}21", "1".repeat(25))).unwrap(), a);
}

#[test]
fn empty_manager_supports_nothing_until_registered() {
    let mut manager: SignatureManager<Ed25519Scheme> = SignatureManager::empty();
    assert!(!manager.is_supported(SignatureAlgorithm::Ed25519));
    assert!(manager.supported_algorithms().is_empty());
    let sk = SecretKey::new(SignatureAlgorithm::Ed25519, vec![1u8; 32]);
    assert!(matches!(
        manager.sign(b"m", &sk),
        Err(SignatureError::UnsupportedAlgorithm(SignatureAlgorithm::Ed25519))
    ));
    manager.register_scheme(std::sync::Arc::new(Ed25519Scheme::new()));
    assert!(manager.is_supported(SignatureAlgorithm::Ed25519));
    assert_eq!(manager.supported_algorithms(), vec![SignatureAlgorithm::Ed25519]);
    assert!(manager.sign(b"m", &sk).is_ok());
}
