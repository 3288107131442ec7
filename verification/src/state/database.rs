//! Layout of the state database: its column families and the keys and values
//! stored in them.
use vstd::prelude::*;
use crate::crypto::address::{Address, AddressError};
use crate::crypto::algorithm::SignatureAlgorithm;
use crate::uint::{H256, U256, be_bytes, be_value, u256_from_big_endian, u256_to_big_endian};

verus! {

/// All persistent column families of the world state.
#[derive(Debug, Clone, Copy, PartialEq, Eq, Structural)]
pub enum ColumnFamily {
    Accounts,
    Storage,
    Code,
    TrieNodes,
}

impl ColumnFamily {
    pub open spec fn spec_name(self) -> Seq<char> {
        match self {
            ColumnFamily::Accounts => "accounts"@,
            ColumnFamily::Storage => "storage"@,
            ColumnFamily::Code => "code"@,
            ColumnFamily::TrieNodes => "trie_nodes"@,
        }
    }

    /// The column family's name in the database.
    pub fn name(self) -> (r: &'static str)
        ensures
            r@ == self.spec_name(),
    {
        match self {
            ColumnFamily::Accounts => "accounts",
            ColumnFamily::Storage => "storage",
            ColumnFamily::Code => "code",
            ColumnFamily::TrieNodes => "trie_nodes",
        }
    }

    /// The name, as the column family prints.
    pub fn to_string(&self) -> (r: String)
        ensures
            r@ == self.spec_name(),
    {
        String::from_str(self.name())
    }

    /// Every column family, in the order the database is opened with.
    pub fn all() -> (r: [ColumnFamily; 4])
        ensures
            r@ == seq![ColumnFamily::Accounts, ColumnFamily::Storage, ColumnFamily::Code, ColumnFamily::TrieNodes],
    {
        let r = [ColumnFamily::Accounts, ColumnFamily::Storage, ColumnFamily::Code, ColumnFamily::TrieNodes];
        assert(r@ =~= seq![ColumnFamily::Accounts, ColumnFamily::Storage, ColumnFamily::Code, ColumnFamily::TrieNodes]);
        r
    }
}

/// What the account key of an address is: its network byte, its algorithm
/// byte and its payload, once both bytes are checked.
pub open spec fn account_key_spec(a: Seq<u8>) -> Result<Seq<u8>, AddressError> {
    if a[0] != 0x00 && a[0] != 0x6F {
        Err(AddressError::InvalidNetwork)
    } else if SignatureAlgorithm::spec_from_id(a[1]) is None {
        Err(AddressError::InvalidAlgorithm)
    } else {
        Ok(a.subrange(0, 22))
    }
}

/// The 22-byte key of an address's account entry.
pub fn encode_account_key(address: &Address) -> (r: Result<[u8; 22], AddressError>)
    ensures
        match account_key_spec(address@) {
            Ok(k) => r matches Ok(key) && key@ == k,
            Err(e) => r matches Err(e2) && e2 == e,
        },
{
    proof {
        address.lemma_len();
    }
    let mut key = [0u8; 22];
    let network = match address.network() {
        Ok(n) => n,
        Err(e) => {
            return Err(e);
        },
    };
    key[0] = network.to_u8();
    let algorithm = match address.algorithm() {
        Ok(a) => a,
        Err(e) => {
            return Err(e);
        },
    };
    key[1] = algorithm.to_u8();
    proof {
        crate::crypto::algorithm::lemma_from_id_inverse(address@[1]);
    }
    let payload = address.payload();
    let mut i: usize = 0;
    while i < 20
        invariant
            0 <= i <= 20,
            payload@ == address@.subrange(2, 22),
            address@.len() == 26,
            key@.len() == 22,
            key@[0] == address@[0],
            key@[1] == address@[1],
            forall|j: int| 0 <= j < i ==> key@[2 + j] == payload@[j],
        decreases 20 - i,
    {
        key[2 + i] = payload[i];
        i = i + 1;
    }
    assert forall|j: int| 2 <= j < 22 implies key@[j] == address@[j] by {
        assert(key@[2 + (j - 2)] == payload@[j - 2]);
    }
    assert(key@ =~= address@.subrange(0, 22));
    Ok(key)
}

/// The 54-byte key of a storage slot: the account key, then the slot.
pub fn encode_storage_key(address: &Address, slot: &H256) -> (r: Result<[u8; 54], AddressError>)
    ensures
        match account_key_spec(address@) {
            Ok(k) => r matches Ok(key) && key@ == k + slot@,
            Err(e) => r matches Err(e2) && e2 == e,
        },
{
    let account_key = match encode_account_key(address) {
        Ok(k) => k,
        Err(e) => {
            return Err(e);
        },
    };
    let mut key = [0u8; 54];
    let mut i: usize = 0;
    while i < 22
        invariant
            0 <= i <= 22,
            key@.len() == 54,
            forall|j: int| 0 <= j < i ==> key@[j] == account_key@[j],
        decreases 22 - i,
    {
        key[i] = account_key[i];
        i = i + 1;
    }
    while i < 54
        invariant
            22 <= i <= 54,
            key@.len() == 54,
            slot@.len() == 32,
            forall|j: int| 0 <= j < 22 ==> key@[j] == account_key@[j],
            forall|j: int| 22 <= j < i ==> key@[j] == slot@[j - 22],
        decreases 54 - i,
    {
        key[i] = slot.0[i - 22];
        i = i + 1;
    }
    assert(key@ =~= account_key@ + slot@);
    Ok(key)
}

/// The 32 big-endian bytes stored for a storage slot's value.
pub fn encode_storage_value(value: &U256) -> (r: [u8; 32])
    ensures
        r@ == be_bytes(value@, 32),
{
    u256_to_big_endian(value)
}

/// The value of a storage slot read back from its 32 stored bytes.
pub fn decode_storage_value(bytes: &[u8]) -> (r: U256)
    requires
        bytes@.len() == 32,
    ensures
        r@ == be_value(bytes@),
{
    u256_from_big_endian(bytes)
}

/// Reading back the stored bytes of a value gives the value.
pub proof fn lemma_storage_value_roundtrip(v: U256)
    ensures
        be_value(be_bytes(v@, 32)) == v@,
{
    crate::uint::lemma_be_bytes_value(v@, 32);
    crate::uint::lemma_pow256_32();
    crate::uint::lemma_u256_bound(v);
    vstd::arithmetic::div_mod::lemma_small_mod(v@, crate::uint::u256_bound());
}

/// Distinct storage slots of one account have distinct keys, and the key of
/// a slot starts with the key of its account.
pub proof fn lemma_storage_keys_distinct(a: Seq<u8>, s1: Seq<u8>, s2: Seq<u8>)
    requires
        a.len() == 26,
        account_key_spec(a) is Ok,
        s1.len() == 32,
        s2.len() == 32,
        s1 != s2,
    ensures
        account_key_spec(a)->Ok_0 + s1 != account_key_spec(a)->Ok_0 + s2,
        (account_key_spec(a)->Ok_0 + s1).subrange(0, 22) == account_key_spec(a)->Ok_0,
{
    let k = account_key_spec(a)->Ok_0;
    assert((k + s1).subrange(22, 54) =~= s1);
    assert((k + s2).subrange(22, 54) =~= s2);
    assert((k + s1).subrange(0, 22) =~= k);
}

} // verus!
