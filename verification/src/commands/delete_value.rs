use vstd::prelude::*;

use crate::commands::CommandStruct;
use crate::models::credentials::CredentialsView;
use crate::models::error::{fails_with, gives, text_outcome, unit_outcome, ErrorDetails, ErrorView};
use crate::services::encryption::{storable, Encryption, EncryptionService};
use crate::services::sql::{without, SqliteService};

verus! {

/// What deleting a credential by name may give: the name is sealed and
/// every record under the sealed name leaves the store. That there is none
/// is no error. Whenever the answer is an error the store is as it was.
/// Where the store fails, its own error is the answer.
pub open spec fn deletes<C: EncryptionService>(
    engine: Encryption<C>,
    failure: Option<ErrorView>,
    before: Seq<CredentialsView>,
    name: Seq<char>,
    after: Seq<CredentialsView>,
    out: Result<(), ErrorView>,
) -> bool {
    exists|lookup: Result<Seq<char>, ErrorView>| #[trigger]
        engine.seals(name, lookup) && (match lookup {
            Err(error) => fails_with(out, error) && after == before,
            Ok(k) => (failure is Some && fails_with(out, failure->Some_0) && after
                == before) || (gives(out, ()) && after == without(before, k)),
        })
}

impl<SqlSrv: SqliteService, EncSrv: EncryptionService> CommandStruct<SqlSrv, EncSrv> {
    /// Deletes the credential stored under a name.
    pub fn delete_by_keyname(&mut self, keyname: String) -> (out: Result<(), ErrorDetails>)
        requires
            storable(keyname@),
        ensures
            final(self).engine() == old(self).engine(),
            final(self).failure() == old(self).failure(),
            deletes(
                old(self).engine(),
                old(self).failure(),
                old(self).store(),
                keyname@,
                final(self).store(),
                unit_outcome(out),
            ),
    {
        let lookup = self.encryption_service.seal_text(keyname.as_str());
        assert(self.engine().seals(keyname@, text_outcome(lookup)));
        let lookup = match lookup {
            Ok(k) => k,
            Err(e) => {
                return Err(e);
            },
        };
        self.sql_service.del_from_sql(lookup)
    }
}

} // verus!
