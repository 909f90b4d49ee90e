//! How a run of the vault is set up.

pub mod loader;
