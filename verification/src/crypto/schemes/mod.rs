pub mod ed25519_scheme;
