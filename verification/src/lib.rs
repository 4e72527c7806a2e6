//! EVM execution module.
//!
//! The module keeps accounts, codes and storages of an Ethereum-compatible virtual machine, runs
//! call and create transactions on them, and moves balance between them and the currency of the
//! chain that it is part of.

pub mod account_id;
pub mod config;
pub mod execution;
pub mod executor;
pub mod hashing;
pub mod laws;
pub mod module;
pub mod primitives;
pub mod request_laws;
pub mod state;
pub mod storage;
pub mod store_laws;
pub mod supply;
pub mod transaction_laws;
