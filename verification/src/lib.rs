//! Construction pipeline for immutable, identity-bearing data contracts.
//!
//! The factory builds a [`contract::DataContract`] from one of three input
//! shapes: a structured field map, a parsed generic object, or a raw binary
//! wire payload. Identity is derived deterministically from the owner's
//! identifier and fresh entropy, and untrusted payloads pass a schema
//! validation gate before a contract is constructed from them.

pub mod value;

pub mod errors;

pub mod identifier;

pub mod documents;

pub mod contract;

pub mod validation;



pub mod factory;
