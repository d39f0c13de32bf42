pub mod error;
pub mod types;
pub mod state;
pub mod access;
pub mod admin;
pub mod index;
pub mod lifecycle;
pub mod payout;
pub mod release;
pub mod expiry;
pub mod batch;
pub mod multisig;
pub mod vaultops;
pub mod roles;
pub mod passkeys;
pub mod settings;
pub mod ownership;
pub mod views;
pub mod laws;
