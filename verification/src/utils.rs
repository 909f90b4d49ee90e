//! Helpers shared by the vault's components.

pub mod encoding;
pub mod helpers;
pub mod text;
