use chain_core::crypto::address::{Address, NetworkId};
use chain_core::crypto::algorithm::SignatureAlgorithm;
use chain_core::crypto::manager::SignatureManager;
use chain_core::crypto::schemes::ed25519_scheme::Ed25519Scheme;
use chain_core::crypto::signature::{PublicKey, SecretKey};
use chain_core::tx::{
    FEE_LIMIT, GWEI, KWEI, MWEI, Transaction, TransactionError, UnsignedTransaction, WEI_PER_COIN,
    format_wei, u256_from_prefixed_hex, u256_to_prefixed_hex,
};
use chain_core::uint::U256;

fn keys(manager: &SignatureManager<Ed25519Scheme>) -> (PublicKey, SecretKey, Address) {
    let (address, pk, sk) = manager.generate_wallet(SignatureAlgorithm::Ed25519, NetworkId::Mainnet).unwrap();
    (pk, sk, address)
}

fn zero_address() -> Address {
    Address::from_bytes(&[0u8; 26]).unwrap()
}

#[test]
fn denominations() {
    assert_eq!(WEI_PER_COIN, 10u128.pow(18));
    assert_eq!(GWEI, 10u128.pow(9));
    assert_eq!(MWEI, 10u128.pow(6));
    assert_eq!(KWEI, 1000);
    assert_eq!(FEE_LIMIT, 21_000);
}

#[test]
fn format_wei_writes_eighteen_decimals() {
    assert_eq!(format_wei(U256::from_u128(1_500_000_000_000_000_000)), "1.500000000000000000");
    assert_eq!(format_wei(U256::zero()), "0.000000000000000000");
    assert_eq!(format_wei(U256::from_u128(1)), "0.000000000000000001");
    assert_eq!(format_wei(U256::from_u128(123 * WEI_PER_COIN + 45)), "123.000000000000000045");
    // only the low 128 bits are formatted
    let mut big = U256::from_u128(7);
    big.w2 = 1;
    assert_eq!(format_wei(big), "0.000000000000000007");
}

#[test]
fn amount_hex_text() {
    assert_eq!(u256_to_prefixed_hex(&U256::zero()), "0x0");
    assert_eq!(u256_to_prefixed_hex(&U256::from_u64(0xDEADBEEF)), "0xdeadbeef");
    assert_eq!(u256_from_prefixed_hex("0xdeadbeef"), Some(U256::from_u64(0xDEADBEEF)));
    assert_eq!(u256_from_prefixed_hex("0x0xFF"), Some(U256::from_u64(255)));
    assert_eq!(u256_from_prefixed_hex("abc"), Some(U256::from_u64(0xabc)));
    assert_eq!(u256_from_prefixed_hex(""), Some(U256::zero()));
    assert_eq!(u256_from_prefixed_hex("0xzz"), None);
    assert_eq!(u256_from_prefixed_hex(&"f".repeat(65)), None);
    let max = U256::max_value();
    assert_eq!(u256_from_prefixed_hex(&u256_to_prefixed_hex(&max)), Some(max));
}

#[test]
fn signable_bytes_are_compact_json() {
    let mut to_bytes = [0u8; 26];
    to_bytes[0] = 0x6F;
    to_bytes[25] = 255;
    let to = Address::from_bytes(&to_bytes).unwrap();
    let tx = UnsignedTransaction::new_contract_call_at(
        zero_address(),
        to,
        U256::from_u64(26),
        7,
        vec![1, 2, 3],
        50_000,
        U256::from_u64(0),
        -5,
    );
    let zeros = format!("[{}0]", "0,".repeat(25));
    let to_json = format!("[111,{}255]", "0,".repeat(24));
    let expected = format!(
        "{{\"from\":{},\"to\":{},\"value\":\"0x1a\",\"nonce\":7,\"data\":[1,2,3],\"fee_limit\":50000,\"fee_price\":\"0x0\",\"timestamp\":-5}}",
        zeros, to_json
    );
    assert_eq!(String::from_utf8(tx.to_signable_bytes()).unwrap(), expected);

    let transfer = UnsignedTransaction::new_transfer_at(zero_address(), zero_address(), U256::from_u64(1), 0, U256::from_u64(2), 1700000000);
    let text = String::from_utf8(transfer.to_signable_bytes()).unwrap();
    assert!(text.ends_with(",\"data\":[],\"fee_limit\":21000,\"fee_price\":\"0x2\",\"timestamp\":1700000000}"));
}

#[test]
fn new_transfer_uses_clock_and_defaults() {
    let tx = UnsignedTransaction::new_transfer(zero_address(), zero_address(), U256::from_u64(5), 3, U256::from_u64(9));
    assert_eq!(tx.fee_limit, FEE_LIMIT);
    assert!(tx.data.is_empty());
    assert!(tx.timestamp > 1_600_000_000);
    let call = UnsignedTransaction::new_contract_call(zero_address(), zero_address(), U256::zero(), 1, vec![9], 10, U256::from_u64(1));
    assert_eq!(call.data, vec![9]);
    assert_eq!(call.fee_limit, 10);
}

fn signed(
    manager: &SignatureManager<Ed25519Scheme>,
    sk: &SecretKey,
    pk: &PublicKey,
    from: Address,
    value: u64,
    data: Vec<u8>,
    fee_limit: u64,
    timestamp: i64,
) -> Transaction {
    let unsigned = UnsignedTransaction::new_contract_call_at(
        from,
        zero_address(),
        U256::from_u64(value),
        1,
        data,
        fee_limit,
        U256::from_u64(3),
        timestamp,
    );
    unsigned.sign(sk, pk, manager).unwrap()
}

#[test]
fn signed_transaction_verifies() {
    let manager = SignatureManager::new();
    let (pk, sk, from) = keys(&manager);
    let tx = signed(&manager, &sk, &pk, from.clone(), 100, vec![], 21_000, 1_000);
    assert!(tx.verify_at(&manager, 1_000).is_ok());
    assert!(tx.verify_at(&manager, 700).is_ok());
    assert!(!tx.is_contract_call());

    let unsigned = UnsignedTransaction::new_transfer(from, zero_address(), U256::from_u64(1), 0, U256::from_u64(1));
    let now_tx = unsigned.sign(&sk, &pk, &manager).unwrap();
    assert!(now_tx.verify(&manager).is_ok());
}

#[test]
fn verification_failures() {
    let manager = SignatureManager::new();
    let (pk, sk, from) = keys(&manager);

    // tampering breaks the signature
    let mut tx = signed(&manager, &sk, &pk, from.clone(), 100, vec![], 21_000, 1_000);
    tx.value = U256::from_u64(101);
    assert!(matches!(tx.verify_at(&manager, 1_000), Err(TransactionError::InvalidSignature)));

    // a sender that is not the key's address
    let (pk2, _sk2, from2) = keys(&manager);
    let tx = signed(&manager, &sk, &pk, from2.clone(), 100, vec![], 21_000, 1_000);
    match tx.verify_at(&manager, 1_000) {
        Err(TransactionError::AddressMismatch { signature_addr, from_addr }) => {
            assert_eq!(signature_addr, from.to_string());
            assert_eq!(from_addr, from2.to_string());
        }
        other => panic!("unexpected {:?}", other),
    }
    let _ = pk2;

    // a sender with an unknown network byte
    let mut bytes = from.as_bytes().to_vec();
    bytes[0] = 0x05;
    let odd = Address::from_bytes(&bytes).unwrap();
    let tx = signed(&manager, &sk, &pk, odd, 100, vec![], 21_000, 1_000);
    assert!(matches!(tx.verify_at(&manager, 1_000), Err(TransactionError::InvalidPublicKey)));

    // no value and no data
    let tx = signed(&manager, &sk, &pk, from.clone(), 0, vec![], 21_000, 1_000);
    match tx.verify_at(&manager, 1_000) {
        Err(TransactionError::InvalidValue(m)) => assert_eq!(m, "Transaction has no value and no data"),
        other => panic!("unexpected {:?}", other),
    }
    // data alone is enough
    let tx = signed(&manager, &sk, &pk, from.clone(), 0, vec![1], 21_000, 1_000);
    assert!(tx.verify_at(&manager, 1_000).is_ok());
    assert!(tx.is_contract_call());

    // zero fee limit
    let tx = signed(&manager, &sk, &pk, from.clone(), 1, vec![], 0, 1_000);
    match tx.verify_at(&manager, 1_000) {
        Err(TransactionError::InvalidValue(m)) => assert_eq!(m, "Fee limit cannot be zero"),
        other => panic!("unexpected {:?}", other),
    }

    // more than 300 seconds in the future
    let tx = signed(&manager, &sk, &pk, from.clone(), 1, vec![], 1, 1_301);
    match tx.verify_at(&manager, 1_000) {
        Err(TransactionError::Expired { timestamp }) => assert_eq!(timestamp, 1_301),
        other => panic!("unexpected {:?}", other),
    }
    let tx = signed(&manager, &sk, &pk, from.clone(), 1, vec![], 1, 1_300);
    assert!(tx.verify_at(&manager, 1_000).is_ok());
}

#[test]
fn signing_with_unsupported_key_fails() {
    let manager = SignatureManager::new();
    let (pk, _sk, from) = keys(&manager);
    let sk = SecretKey::new(SignatureAlgorithm::MlDsa65, vec![0; 32]);
    let unsigned = UnsignedTransaction::new_transfer_at(from, zero_address(), U256::from_u64(1), 0, U256::from_u64(1), 0);
    match unsigned.sign(&sk, &pk, &manager) {
        Err(TransactionError::SigningFailed(m)) => assert_eq!(m, "Unsupported algorithm: ML-DSA-65"),
        other => panic!("unexpected {:?}", other.is_ok()),
    }
}

#[test]
fn costs() {
    let manager = SignatureManager::new();
    let (pk, sk, from) = keys(&manager);
    let tx = signed(&manager, &sk, &pk, from, 1_000, vec![], 21_000, 0);
    assert_eq!(tx.max_cost(), U256::from_u64(1_000 + 21_000 * 3));
    assert_eq!(tx.actual_cost(5), U256::from_u64(1_000 + 5 * 3));
}

#[test]
fn hash_is_sha256_hex_of_json() {
    let manager = SignatureManager::new();
    let (pk, sk, from) = keys(&manager);
    let tx = signed(&manager, &sk, &pk, from, 1, vec![], 1, 0);
    let h = tx.hash();
    assert_eq!(h.len(), 64);
    assert!(h.chars().all(|c| c.is_ascii_hexdigit() && !c.is_ascii_uppercase()));
    assert_eq!(h, tx.hash());
    let mut other = signed(&manager, &sk, &pk, tx.from.clone(), 1, vec![], 1, 0);
    other.nonce = 2;
    assert_ne!(h, other.hash());
}

#[test]
fn signable_bytes_change_with_every_field() {
    let make = |value: u64, nonce: u64, data: Vec<u8>, fee_limit: u64, fee_price: u64, timestamp: i64| {
        UnsignedTransaction::new_contract_call_at(
            zero_address(),
            zero_address(),
            U256::from_u64(value),
            nonce,
            data,
            fee_limit,
            U256::from_u64(fee_price),
            timestamp,
        )
        .to_signable_bytes()
    };
    let base = make(1, 2, vec![3], 4, 5, 6);
    assert_eq!(base, make(1, 2, vec![3], 4, 5, 6));
    assert_ne!(base, make(10, 2, vec![3], 4, 5, 6));
    assert_ne!(base, make(1, 20, vec![3], 4, 5, 6));
    assert_ne!(base, make(1, 2, vec![3, 0], 4, 5, 6));
    assert_ne!(base, make(1, 2, vec![30], 4, 5, 6));
    assert_ne!(base, make(1, 2, vec![3], 40, 5, 6));
    assert_ne!(base, make(1, 2, vec![3], 4, 50, 6));
    assert_ne!(base, make(1, 2, vec![3], 4, 5, -6));
    let mut to_bytes = [0u8; 26];
    to_bytes[25] = 1;
    let other = UnsignedTransaction::new_contract_call_at(
        zero_address(),
        Address::from_bytes(&to_bytes).unwrap(),
        U256::from_u64(1),
        2,
        vec![3],
        4,
        U256::from_u64(5),
        6,
    );
    assert_ne!(base, other.to_signable_bytes());
}
