use vstd::prelude::*;

use crate::commands::secret_key::authenticates;
use crate::commands::CommandStruct;
use crate::models::dependencies::Dependencies;
use crate::models::enums::{get_os_and_username, os_for_name, OperatingSystem};
use crate::models::error::{ErrorDetails, ErrorView};
use crate::models::services::Services;
use crate::services::encryption::{Encryption, EncryptionService};
use crate::services::sql::SqliteService;
use crate::utils::helpers::{normalizable, normalized};

verus! {

/// The secret key of a set-up run, or the error, as mathematical values.
pub open spec fn run_outcome<EncSrv: EncryptionService, SqlSrv: SqliteService>(
    out: Result<Dependencies<EncSrv, SqlSrv>, ErrorDetails>,
) -> Result<Seq<char>, ErrorView> {
    match out {
        Ok(d) => Ok(d.key@),
        Err(e) => Err(e@),
    }
}

/// Sets a run up: authenticates the operator against the store with the
/// master passphrase and, where that succeeds, hands out the key material
/// together with the platform and the services, the engine keyed and the
/// store as it was.
pub fn init_services<SqlSrv: SqliteService, EncSrv: EncryptionService>(
    sql: SqlSrv,
    cipher: EncSrv,
    master_pass: &str,
    os_name: &str,
    username: String,
) -> (out: Result<Dependencies<EncSrv, SqlSrv>, ErrorDetails>)
    requires
        normalizable(master_pass@, 24),
    ensures
        authenticates(&cipher, sql.failure(), sql.records(), master_pass@, run_outcome(out)),
        out matches Ok(d) ==> d.password@ == normalized(master_pass@, 24),
        out matches Ok(d) ==> d.os == os_for_name(os_name@),
        out matches Ok(d) ==> d.username@ == username@,
        out matches Ok(d) ==> d.services.sql.records() == sql.records(),
        out matches Ok(d) ==> d.services.sql.failure() == sql.failure(),
        out matches Ok(d) ==> d.services.encryption.cipher() == cipher,
        out matches Ok(d) ==> d.services.encryption.password() == d.password@,
        out matches Ok(d) ==> d.services.encryption.key() == d.key@,
{
    let encryption = Encryption::new(String::new(), String::new(), cipher);
    let mut handler = CommandStruct::new(Services { encryption, sql });
    match handler.extract_secret_key(master_pass) {
        Ok(()) => {},
        Err(e) => {
            return Err(e);
        },
    }
    let services = handler.into_services();
    let os = match get_os_and_username(os_name) {
        Some(os) => os,
        None => OperatingSystem::Other,
    };
    Ok(
        Dependencies {
            key: services.encryption.key_text(),
            password: services.encryption.password_text(),
            os,
            username,
            services,
        },
    )
}

} // verus!
