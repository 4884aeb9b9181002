//! The local ledger core of a peer-run application runtime.
//!
//! An agent's source chain is a hash-linked sequence of headers kept in a
//! content-addressable store; every header commits to one entry and points at
//! the header before it and at the previous header of the same entry type.
//! Beside the chain stands the dispatch bridge, which lets a blocking caller
//! wait for the response that a single-writer reducer produces for its action.
//!
//! Every function carries a contract. Verus proves them all but those of the
//! five private functions that call into `multihash`, `rust-base58` and
//! `serde_json`: their contracts say what is taken on trust.

pub mod action;
pub mod address;
pub mod allocation;
pub mod cas;
pub mod chain;
pub mod entry;
pub mod error;
pub mod get_links;
pub mod header;
pub mod instance;
pub mod json;
pub mod state;
