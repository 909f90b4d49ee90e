use vstd::prelude::*;

use crate::models::enums::OperatingSystem;
use crate::models::services::Services;
use crate::services::encryption::EncryptionService;
use crate::services::sql::SqliteService;

verus! {

/// What one run of the vault works with once the operator is
/// authenticated: the key material, the platform and the services.
pub struct Dependencies<EncService: EncryptionService, SqlService: SqliteService> {
    /// The secret key, which keys the outer cipher.
    pub key: String,
    /// The passphrase key, which keys the inner cipher.
    pub password: String,
    pub os: OperatingSystem,
    pub username: String,
    pub services: Services<SqlService, EncService>,
}

} // verus!
