pub mod address;
pub mod base58;
pub mod algorithm;
pub mod digest;
pub mod manager;
pub mod schemes;
pub mod signature;
