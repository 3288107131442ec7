use sha3::{Digest, Keccak256};
use chain_core::state::account::{
    Account, AccountError, DecodeError, empty_code_hash, empty_storage_root,
};
use chain_core::state::database::{
    ColumnFamily, decode_storage_value, encode_account_key, encode_storage_key, encode_storage_value,
};
use chain_core::state::hash::{Keccak256Hasher, StateHasher};
use chain_core::crypto::address::{Address, AddressError, NetworkId};
use chain_core::crypto::algorithm::SignatureAlgorithm;
use chain_core::crypto::signature::PublicKey;
use chain_core::uint::{H256, U256};

fn sample_contract_account() -> Account {
    Account {
        nonce: 5,
        balance: U256::from_u128(42),
        code_hash: H256::repeat_byte(0x11),
        storage_root: H256::repeat_byte(0xaa),
    }
}

#[test]
fn encode_decode_roundtrip_eoa() {
    let account = Account {
        nonce: 7,
        balance: U256::from_u128(123456),
        ..Account::new()
    };

    let encoded = account.encode();
    assert_eq!(encoded.len(), 104, "SSZ encoding must be 104 bytes");
    let decoded = Account::decode(&encoded).expect("decode must succeed");

    assert_eq!(account, decoded);
}

#[test]
fn encode_decode_roundtrip_contract() {
    let account = sample_contract_account();
    let encoded = account.encode();
    assert_eq!(encoded.len(), 104);
    let decoded = Account::decode(&encoded).expect("decode must succeed");
    assert_eq!(account, decoded);
}

#[test]
fn ssz_fixed_length_contract() {
    assert_eq!(Account::ssz_fixed_len(), 104);
    assert!(Account::is_ssz_fixed_len());
}

#[test]
fn decode_rejects_wrong_length() {
    let too_short = vec![0u8; 50];
    assert!(Account::decode(&too_short).is_err());

    let too_long = vec![0u8; 200];
    assert!(Account::decode(&too_long).is_err());
}

#[test]
fn detects_eoa_vs_contract() {
    let eoa = Account::new_eoa(U256::from_u128(10));
    assert!(!eoa.is_contract());

    let mut contract = eoa.clone();
    contract.code_hash = H256::repeat_byte(0x22);
    assert!(contract.is_contract());
}

#[test]
fn existence_semantics_match_eth() {
    let mut account = Account::new();
    assert!(!account.account_exists());

    account.nonce = 1;
    assert!(account.account_exists());

    account.nonce = 0;
    account.balance = U256::from_u128(1);
    assert!(account.account_exists());

    account.balance = U256::zero();
    account.code_hash = H256::repeat_byte(0x33);
    assert!(account.account_exists());
}

#[test]
fn default_values_match_constants() {
    let default = Account::default();
    assert_eq!(default.nonce, 0);
    assert_eq!(default.balance, U256::zero());
    assert_eq!(default.code_hash, empty_code_hash());
    assert_eq!(default.storage_root, empty_storage_root());
}

#[test]
fn large_balance_roundtrip() {
    let account = Account {
        nonce: u64::MAX,
        balance: U256::max_value(),
        code_hash: H256::repeat_byte(0xFF),
        storage_root: H256::repeat_byte(0xEE),
    };

    let encoded = account.encode();
    let decoded = Account::decode(&encoded).unwrap();
    assert_eq!(account, decoded);
}

#[test]
fn encoding_layout_is_exact() {
    let account = Account {
        nonce: 0x0102030405060708,
        balance: U256::from_u128(0x1122),
        code_hash: H256::repeat_byte(0x33),
        storage_root: H256::repeat_byte(0x44),
    };
    let e = account.encode();
    assert_eq!(&e[0..8], &[8, 7, 6, 5, 4, 3, 2, 1]);
    let mut bal = [0u8; 32];
    bal[30] = 0x11;
    bal[31] = 0x22;
    assert_eq!(&e[8..40], &bal);
    assert_eq!(&e[40..72], &[0x33; 32]);
    assert_eq!(&e[72..104], &[0x44; 32]);
    assert_eq!(
        Account::decode(&[0u8; 50]),
        Err(AccountError::Ssz(DecodeError::InvalidByteLength { len: 50, expected: 104 }))
    );
    assert_eq!(account.ssz_bytes_len(), 104);
}

#[test]
fn empty_hashes_are_the_keccak_constants() {
    let empty: [u8; 32] = Keccak256::digest([]).into();
    assert_eq!(empty_code_hash().0, empty);
    assert_eq!(empty_storage_root().0[0], 0x56);
    assert_eq!(empty_storage_root().0[31], 0x21);
}

#[test]
fn keccak_hasher_hashes_concatenation() {
    let h = Keccak256Hasher::default();
    let left = H256::repeat_byte(1);
    let right = H256::repeat_byte(2);
    let mut both = vec![1u8; 32];
    both.extend_from_slice(&[2u8; 32]);
    let expected: [u8; 32] = Keccak256::digest(&both).into();
    assert_eq!(h.hash_node(&left, &right).0, expected);
    let mut leaf = vec![1u8; 32];
    leaf.extend_from_slice(b"value");
    let expected_leaf: [u8; 32] = Keccak256::digest(&leaf).into();
    assert_eq!(h.hash_leaf(&left, b"value").0, expected_leaf);
    assert_ne!(h.hash_node(&left, &right), h.hash_node(&right, &left));
}

fn sample_address() -> Address {
    let pk = PublicKey::new(SignatureAlgorithm::Ed25519, vec![0xAB; 32]).unwrap();
    Address::derive(&pk, NetworkId::Testnet).unwrap()
}

#[test]
fn database_keys_layout() {
    let addr = sample_address();
    let key = encode_account_key(&addr).unwrap();
    assert_eq!(key[0], 0x6F);
    assert_eq!(key[1], 0);
    assert_eq!(&key[2..], addr.payload());
    let slot = H256::from_low_u64_be(42);
    let skey = encode_storage_key(&addr, &slot).unwrap();
    assert_eq!(&skey[..22], &key[..]);
    assert_eq!(skey[53], 42);
    assert_eq!(&skey[22..53], &[0u8; 31]);

    let mut bad = [0u8; 26];
    bad[0] = 0x05;
    let bad_addr = Address::from_bytes(&bad).unwrap();
    assert_eq!(encode_account_key(&bad_addr), Err(AddressError::InvalidNetwork));
    bad[0] = 0x00;
    bad[1] = 0x09;
    let bad_alg = Address::from_bytes(&bad).unwrap();
    assert_eq!(encode_storage_key(&bad_alg, &slot), Err(AddressError::InvalidAlgorithm));
}

#[test]
fn storage_value_roundtrip_and_names() {
    let v = U256::from_u64(0xDEADBEEF);
    let b = encode_storage_value(&v);
    assert_eq!(&b[28..], &[0xDE, 0xAD, 0xBE, 0xEF]);
    assert_eq!(decode_storage_value(&b), v);
    assert_eq!(ColumnFamily::Accounts.name(), "accounts");
    assert_eq!(ColumnFamily::Storage.name(), "storage");
    assert_eq!(ColumnFamily::Code.name(), "code");
    assert_eq!(ColumnFamily::TrieNodes.to_string(), "trie_nodes");
    assert_eq!(ColumnFamily::all().len(), 4);
}

#[test]
fn u256_and_h256_helpers() {
    assert_eq!(U256::from_u128(u128::MAX).w1, u64::MAX);
    assert!(U256::zero().is_zero());
    assert!(!U256::from_u64(1).is_zero());
    assert!(U256::from_u64(5).equals(&U256::from_u128(5)));
    let h = H256::from_low_u64_be(0x0102);
    assert_eq!(h.0[30], 1);
    assert_eq!(h.0[31], 2);
    assert_eq!(H256::from_slice(&[9u8; 32]), H256::repeat_byte(9));
    assert!(H256::zero().equals(&H256::repeat_byte(0)));
}
