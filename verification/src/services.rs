//! The vault's services: the cipher engine and the record store.

pub mod encryption;
pub mod laws;
pub mod padding;
pub mod sql;
