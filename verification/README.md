# chain_core

Core data types and rules of a small account-based blockchain, written in
Verus: signature algorithms and keys, addresses, the signature manager,
accounts with their fixed-length encoding, the key layout of the state
database, and signed transactions.

- `src/` is the verified library. Calls into outside crates (hashing,
  Ed25519, base58, hex, 256-bit arithmetic, the clock) go through small
  trusted wrappers whose contracts are stated next to them.
- `tests/` exercises the library on concrete values.
- `app/` holds what cannot be verified: the RocksDB-backed state database,
  the serde forms of the library's types, error types with their `Display`
  messages, and the floating-point coin conversions.

## Design notes

- The signature manager keeps its schemes in a `HashMap` keyed by the
  algorithm's identifier byte. It is generic over one scheme type
  `S: SignatureScheme`: Verus does not accept the unsizing coercion to
  `Arc<dyn SignatureScheme>`, so a manager cannot hold schemes of different
  Rust types side by side; a user's own scheme type (an enum of schemes, for
  instance) starts from `SignatureManager::empty()`. Each scheme is
  registered under its own algorithm, and registering replaces the scheme
  held for that algorithm.
- There is no blockchain type (a chain of blocks with its validity check):
  it is built on a block type whose definition is not part of this code base,
  so neither the block hashing nor the chain check can be stated or proved
  here.
