//! Accounts of the world state and their fixed-length (104-byte) encoding.
use vstd::prelude::*;
use crate::uint::{
    H256, U256, be_bytes, be_value, le_bytes, le_value, u256_from_big_endian, u256_to_big_endian,
    u64_from_le_bytes, u64_to_le_bytes,
};

verus! {

/// Keccak-256 of the empty byte string: the code hash of an account without code.
pub open spec fn empty_code_hash_spec() -> Seq<u8> {
    seq![
        0xc5u8, 0xd2, 0x46, 0x01, 0x86, 0xf7, 0x23, 0x3c,
        0x92, 0x7e, 0x7d, 0xb2, 0xdc, 0xc7, 0x03, 0xc0,
        0xe5, 0x00, 0xb6, 0x53, 0xca, 0x82, 0x27, 0x3b,
        0x7b, 0xfa, 0xd8, 0x04, 0x5d, 0x85, 0xa4, 0x70,
    ]
}

/// Root of the empty Merkle Patricia trie.
pub open spec fn empty_storage_root_spec() -> Seq<u8> {
    seq![
        0x56u8, 0xe8, 0x1f, 0x17, 0x1b, 0xcc, 0x55, 0xa6,
        0xff, 0x83, 0x45, 0xe6, 0x92, 0xc0, 0xf8, 0x6e,
        0x5b, 0x48, 0xe0, 0x1b, 0x99, 0x6c, 0xad, 0xc0,
        0x01, 0x62, 0x2f, 0xb5, 0xe3, 0x63, 0xb4, 0x21,
    ]
}

/// Keccak-256 of the empty byte string.
pub fn empty_code_hash() -> (r: H256)
    ensures
        r@ == empty_code_hash_spec(),
{
    let r = H256([
        0xc5, 0xd2, 0x46, 0x01, 0x86, 0xf7, 0x23, 0x3c,
        0x92, 0x7e, 0x7d, 0xb2, 0xdc, 0xc7, 0x03, 0xc0,
        0xe5, 0x00, 0xb6, 0x53, 0xca, 0x82, 0x27, 0x3b,
        0x7b, 0xfa, 0xd8, 0x04, 0x5d, 0x85, 0xa4, 0x70,
    ]);
    assert(r@ =~= empty_code_hash_spec());
    r
}

/// Root of the empty Merkle Patricia trie.
pub fn empty_storage_root() -> (r: H256)
    ensures
        r@ == empty_storage_root_spec(),
{
    let r = H256([
        0x56, 0xe8, 0x1f, 0x17, 0x1b, 0xcc, 0x55, 0xa6,
        0xff, 0x83, 0x45, 0xe6, 0x92, 0xc0, 0xf8, 0x6e,
        0x5b, 0x48, 0xe0, 0x1b, 0x99, 0x6c, 0xad, 0xc0,
        0x01, 0x62, 0x2f, 0xb5, 0xe3, 0x63, 0xb4, 0x21,
    ]);
    assert(r@ =~= empty_storage_root_spec());
    r
}

/// Number of bytes of an encoded account: nonce (8), balance (32), code hash
/// (32) and storage root (32).
pub const ACCOUNT_ENCODED_LEN: usize = 104;

/// The abstract value of an account.
pub struct AccountView {
    pub nonce: u64,
    pub balance: nat,
    pub code_hash: Seq<u8>,
    pub storage_root: Seq<u8>,
}

#[derive(Debug, Clone, Copy, PartialEq, Eq)]
pub struct Account {
    pub nonce: u64,
    pub balance: U256,
    pub code_hash: H256,
    pub storage_root: H256,
}

impl View for Account {
    type V = AccountView;

    open spec fn view(&self) -> AccountView {
        AccountView {
            nonce: self.nonce,
            balance: self.balance@,
            code_hash: self.code_hash@,
            storage_root: self.storage_root@,
        }
    }
}

/// The encoding of an account: the nonce in eight little-endian bytes, the
/// balance in 32 big-endian bytes, then the code hash and the storage root.
pub open spec fn account_encoding(a: AccountView) -> Seq<u8> {
    le_bytes(a.nonce as nat, 8) + be_bytes(a.balance, 32) + a.code_hash + a.storage_root
}

/// What decoding bytes gives: the fields read back from exactly 104 bytes, or
/// the actual length when it is not 104.
pub open spec fn account_decoding(b: Seq<u8>) -> Result<AccountView, usize> {
    if b.len() != 104 {
        Err(b.len() as usize)
    } else {
        Ok(
            AccountView {
                nonce: le_value(b.subrange(0, 8)) as u64,
                balance: be_value(b.subrange(8, 40)),
                code_hash: b.subrange(40, 72),
                storage_root: b.subrange(72, 104),
            },
        )
    }
}

/// An account holds 32-byte hashes and a balance below 2^256.
pub open spec fn account_wf(a: AccountView) -> bool {
    &&& a.balance < crate::uint::u256_bound()
    &&& a.code_hash.len() == 32
    &&& a.storage_root.len() == 32
}

/// Error of the fixed-length decoding.
#[derive(Debug, Clone, Copy, PartialEq, Eq, Structural)]
pub enum DecodeError {
    InvalidByteLength { len: usize, expected: usize },
}

#[derive(Debug, Clone, Copy, PartialEq, Eq, Structural)]
pub enum AccountError {
    Ssz(DecodeError),
}

impl Account {
    /// The empty account: zero nonce and balance, no code, empty storage.
    pub fn new() -> (r: Account)
        ensures
            r@ == (AccountView {
                nonce: 0,
                balance: 0,
                code_hash: empty_code_hash_spec(),
                storage_root: empty_storage_root_spec(),
            }),
    {
        Account {
            nonce: 0,
            balance: U256::zero(),
            code_hash: empty_code_hash(),
            storage_root: empty_storage_root(),
        }
    }

    /// An externally owned account with the given balance.
    pub fn new_eoa(balance: U256) -> (r: Account)
        ensures
            r@ == (AccountView {
                nonce: 0,
                balance: balance@,
                code_hash: empty_code_hash_spec(),
                storage_root: empty_storage_root_spec(),
            }),
    {
        Account { balance, ..Self::new() }
    }

    /// A contract is an account whose code hash is not that of empty code.
    pub fn is_contract(&self) -> (r: bool)
        ensures
            r == (self.code_hash@ != empty_code_hash_spec()),
    {
        let empty = empty_code_hash();
        !self.code_hash.equals(&empty)
    }

    /// An account exists when it has a nonce, a balance or code.
    pub fn account_exists(&self) -> (r: bool)
        ensures
            r == (self.nonce != 0 || self.balance@ != 0 || self.code_hash@ != empty_code_hash_spec()),
    {
        self.nonce != 0 || !self.balance.is_zero() || self.is_contract()
    }

    pub fn is_ssz_fixed_len() -> (r: bool)
        ensures
            r,
    {
        true
    }

    pub fn ssz_fixed_len() -> (r: usize)
        ensures
            r == 104,
    {
        ACCOUNT_ENCODED_LEN
    }

    pub fn ssz_bytes_len(&self) -> (r: usize)
        ensures
            r == 104,
    {
        ACCOUNT_ENCODED_LEN
    }

    /// The 104-byte encoding of the account.
    pub fn encode(&self) -> (r: Vec<u8>)
        ensures
            r@ == account_encoding(self@),
            r@.len() == 104,
    {
        let mut buf: Vec<u8> = Vec::new();
        self.ssz_append(&mut buf);
        proof {
            crate::uint::lemma_le_bytes_value(self.nonce as nat, 8);
            crate::uint::lemma_be_bytes_value(self.balance@, 32);
        }
        assert(buf@ =~= account_encoding(self@));
        buf
    }

    /// Appends the encoding of the account to `buf`.
    pub fn ssz_append(&self, buf: &mut Vec<u8>)
        ensures
            final(buf)@ == old(buf)@ + account_encoding(self@),
    {
        let nonce = u64_to_le_bytes(self.nonce);
        crate::text::push_bytes(buf, nonce.as_slice());
        let balance = u256_to_big_endian(&self.balance);
        crate::text::push_bytes(buf, balance.as_slice());
        crate::text::push_bytes(buf, self.code_hash.as_bytes());
        crate::text::push_bytes(buf, self.storage_root.as_bytes());
        assert(final(buf)@ =~= old(buf)@ + account_encoding(self@));
    }

    /// Decodes an account from exactly 104 bytes.
    pub fn decode(bytes: &[u8]) -> (r: Result<Account, AccountError>)
        ensures
            match account_decoding(bytes@) {
                Ok(a) => r matches Ok(acct) && acct@ == a,
                Err(len) => r == Err::<Account, AccountError>(
                    AccountError::Ssz(DecodeError::InvalidByteLength { len, expected: 104 }),
                ),
            },
    {
        if bytes.len() != ACCOUNT_ENCODED_LEN {
            return Err(
                AccountError::from(
                    DecodeError::InvalidByteLength { len: bytes.len(), expected: ACCOUNT_ENCODED_LEN },
                ),
            );
        }
        let mut nonce_bytes = [0u8; 8];
        let mut i: usize = 0;
        while i < 8
            invariant
                0 <= i <= 8,
                bytes@.len() == 104,
                forall|j: int| 0 <= j < i ==> nonce_bytes@[j] == bytes@[j],
            decreases 8 - i,
        {
            nonce_bytes[i] = bytes[i];
            i = i + 1;
        }
        assert(nonce_bytes@ =~= bytes@.subrange(0, 8));
        let nonce = u64_from_le_bytes(nonce_bytes);
        let balance = u256_from_big_endian(&bytes[8..40]);
        let code_hash = H256::from_slice(&bytes[40..72]);
        let storage_root = H256::from_slice(&bytes[72..104]);
        Ok(Account { nonce, balance, code_hash, storage_root })
    }
}

impl From<DecodeError> for AccountError {
    fn from(err: DecodeError) -> (r: AccountError) {
        AccountError::Ssz(err)
    }
}

impl vstd::std_specs::convert::FromSpecImpl<DecodeError> for AccountError {
    open spec fn obeys_from_spec() -> bool {
        true
    }

    open spec fn from_spec(v: DecodeError) -> AccountError {
        AccountError::Ssz(v)
    }
}

impl Default for Account {
    fn default() -> (r: Account)
        ensures
            r@ == (AccountView {
                nonce: 0,
                balance: 0,
                code_hash: empty_code_hash_spec(),
                storage_root: empty_storage_root_spec(),
            }),
    {
        Self::new()
    }
}

/// Decoding the encoding of an account gives the account back.
pub proof fn lemma_account_roundtrip(a: AccountView)
    requires
        account_wf(a),
    ensures
        account_decoding(account_encoding(a)) == Ok::<AccountView, usize>(a),
{
    let e = account_encoding(a);
    crate::uint::lemma_le_bytes_value(a.nonce as nat, 8);
    crate::uint::lemma_be_bytes_value(a.balance, 32);
    crate::uint::lemma_pow256_8();
    crate::uint::lemma_pow256_32();
    assert(e.subrange(0, 8) =~= le_bytes(a.nonce as nat, 8));
    assert(e.subrange(8, 40) =~= be_bytes(a.balance, 32));
    assert(e.subrange(40, 72) =~= a.code_hash);
    assert(e.subrange(72, 104) =~= a.storage_root);
    vstd::arithmetic::div_mod::lemma_small_mod(a.nonce as nat, crate::uint::two64());
    vstd::arithmetic::div_mod::lemma_small_mod(a.balance, crate::uint::u256_bound());
}

/// Encoding what 104 bytes decode to gives the bytes back.
pub proof fn lemma_bytes_roundtrip(b: Seq<u8>)
    requires
        b.len() == 104,
    ensures
        account_decoding(b) matches Ok(a) && account_encoding(a) == b,
{
    let n = b.subrange(0, 8);
    let v = b.subrange(8, 40);
    crate::uint::lemma_be_value_bytes(v);
    lemma_le_value_bytes8(n);
    let a = account_decoding(b)->Ok_0;
    assert(account_encoding(a) =~= b);
}

/// Writing the little-endian value of eight bytes back gives the bytes.
proof fn lemma_le_value_bytes8(n: Seq<u8>)
    requires
        n.len() == 8,
    ensures
        le_value(n) < crate::uint::two64(),
        le_bytes(le_value(n) as u64 as nat, 8) == n,
{
    lemma_le_value_bytes(n);
    crate::uint::lemma_pow256_8();
}

proof fn lemma_le_value_bytes(b: Seq<u8>)
    ensures
        le_bytes(le_value(b), b.len()) == b,
        le_value(b) < crate::uint::pow256(b.len()),
    decreases b.len(),
{
    if b.len() > 0 {
        let rest = b.drop_first();
        lemma_le_value_bytes(rest);
        let v = le_value(b);
        vstd::arithmetic::div_mod::lemma_fundamental_div_mod_converse(
            v as int,
            256,
            le_value(rest) as int,
            b[0] as int,
        );
        assert(le_bytes(v, b.len()) =~= seq![b[0]] + rest);
        assert(seq![b[0]] + rest =~= b);
        assert(b[0] + 256 * le_value(rest) < crate::uint::pow256(b.len())) by (nonlinear_arith)
            requires
                le_value(rest) < crate::uint::pow256(rest.len()),
                crate::uint::pow256(b.len()) == 256 * crate::uint::pow256(rest.len()),
                b[0] < 256,
        ;
    } else {
        assert(le_bytes(le_value(b), 0) =~= b);
    }
}

} // verus!
