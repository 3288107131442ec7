pub mod account;
pub mod database;
pub mod hash;
