//! A base asset ledger for a DAO: asset classes are created with a fixed
//! issuer, their units move between accounts, and the issuer mints and burns
//! them; an account can lock part of its balance and unlock it again.
pub mod types;
pub mod holdings;
pub mod account_store;
pub mod ledger;
pub mod module;
pub mod laws;
