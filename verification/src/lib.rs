//! A local, single-user secret vault: named credentials are kept encrypted
//! in a store and are read, replaced or deleted after the operator has
//! authenticated with a master passphrase.
//!
//! The crate holds the cipher engine (padding, layering, decoding), the key
//! bootstrap protocol and the credential repository. The two block ciphers
//! are supplied by the caller.

pub mod commands;
pub mod config;
pub mod models;
pub mod services;
pub mod utils;
