//! Key resolution and encryption orchestration for group end-to-end encryption.
//!
//! The modules hold the decisions of the client side: which key version
//! encrypts, which one decrypts a given envelope, when a verify key has to be
//! fetched, and how concurrent lookups share one fetch.

pub mod cache;
pub mod envelope;
pub mod error;
pub mod group;
pub mod key_store;
pub mod verify;
