//! The vault's commands: reading, storing and deleting credentials, and
//! the first-run and steady-run handling of the secret key.

use vstd::prelude::*;

use crate::models::credentials::CredentialsView;
use crate::models::error::ErrorView;
use crate::models::services::Services;
use crate::services::encryption::{Encryption, EncryptionService};
use crate::services::sql::SqliteService;

pub mod decrypt_file;
pub mod delete_value;
pub mod encrypt_file;
pub mod get_value;
pub mod init_tool;
pub mod laws;
pub mod save_value;
pub mod secret_key;

verus! {

/// The command handler: a store and a cipher engine.
pub struct CommandStruct<SqlSrv: SqliteService, EncSrv: EncryptionService> {
    sql_service: SqlSrv,
    encryption_service: Encryption<EncSrv>,
}

impl<SqlSrv: SqliteService, EncSrv: EncryptionService> CommandStruct<SqlSrv, EncSrv> {
    /// The records that the handler's store holds.
    pub closed spec fn store(&self) -> Seq<CredentialsView> {
        self.sql_service.records()
    }

    /// The error with which the handler's store fails where it fails;
    /// none for a store that never fails.
    pub closed spec fn failure(&self) -> Option<ErrorView> {
        self.sql_service.failure()
    }

    /// The handler's cipher engine.
    pub closed spec fn engine(&self) -> Encryption<EncSrv> {
        self.encryption_service
    }

    pub fn new(srvs: Services<SqlSrv, EncSrv>) -> (handler: Self)
        ensures
            handler.store() == srvs.sql.records(),
            handler.failure() == srvs.sql.failure(),
            handler.engine() == srvs.encryption,
    {
        Self { sql_service: srvs.sql, encryption_service: srvs.encryption }
    }

    /// Hands the services back, the store as the commands left it.
    pub fn into_services(self) -> (srvs: Services<SqlSrv, EncSrv>)
        ensures
            srvs.sql.records() == self.store(),
            srvs.sql.failure() == self.failure(),
            srvs.encryption == self.engine(),
    {
        Services { encryption: self.encryption_service, sql: self.sql_service }
    }

    /// The handler's store.
    pub fn sql(&self) -> (store: &SqlSrv)
        ensures
            store.records() == self.store(),
            store.failure() == self.failure(),
    {
        &self.sql_service
    }

    /// The handler's cipher engine.
    pub fn encryption(&self) -> (engine: &Encryption<EncSrv>)
        ensures
            *engine == self.engine(),
    {
        &self.encryption_service
    }
}

} // verus!
