//! Plain data carried between the vault's components.

pub mod credentials;
pub mod dependencies;
pub mod enums;
pub mod error;
pub mod services;
