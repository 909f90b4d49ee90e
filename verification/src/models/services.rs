use vstd::prelude::*;

use crate::services::encryption::{Encryption, EncryptionService};
use crate::services::sql::SqliteService;

verus! {

/// The two services a command needs: the cipher engine and the store.
pub struct Services<SqlService: SqliteService, EncService: EncryptionService> {
    pub encryption: Encryption<EncService>,
    pub sql: SqlService,
}

} // verus!
