use vstd::prelude::*;

use crate::commands::get_value::record_outcome;
use crate::commands::CommandStruct;
use crate::models::credentials::{Credentials, CredentialsView};
use crate::models::enums::ErrorType;
use crate::models::error::{
    fails_with,
    gives,
    name_taken,
    text_outcome,
    unit_outcome,
    ErrorDetails,
    ErrorView,
};
use crate::services::encryption::{storable, Encryption, EncryptionService};
use crate::services::sql::{holds, saved, SqliteService};

verus! {

/// Whether every text of a credential is short enough for this machine to
/// keep its ciphertext as base64 text.
pub open spec fn storable_credential(cred: CredentialsView) -> bool {
    &&& storable(cred.key)
    &&& storable(cred.value)
    &&& cred.info matches Some(i) ==> storable(i)
}

/// What sealing the value and the note of a credential may give: the
/// record to store under the sealed name `lookup`. No note stays no note.
pub open spec fn seals_fields<C: EncryptionService>(
    engine: Encryption<C>,
    cred: CredentialsView,
    lookup: Seq<char>,
    out: Result<CredentialsView, ErrorView>,
) -> bool {
    exists|value: Result<Seq<char>, ErrorView>| #[trigger]
        engine.seals(cred.value, value) && (match value {
            Err(error) => fails_with(out, error),
            Ok(v) => match cred.info {
                None => gives(out, CredentialsView { key: lookup, value: v, info: None }),
                Some(i) => exists|info: Result<Seq<char>, ErrorView>| #[trigger]
                    engine.seals(i, info) && (match info {
                        Err(error) => fails_with(out, error),
                        Ok(n) => gives(
                            out,
                            CredentialsView { key: lookup, value: v, info: Some(n) },
                        ),
                    }),
            },
        })
}

/// What storing a new credential may give: the name is sealed; where a
/// record under the sealed name is stored already, the answer is
/// `AlreadyExists`; else value and note are sealed and the record is
/// appended. Whenever the answer is an error the store is as it was.
/// Where the store fails, its own error is the answer.
pub open spec fn puts<C: EncryptionService>(
    engine: Encryption<C>,
    failure: Option<ErrorView>,
    before: Seq<CredentialsView>,
    cred: CredentialsView,
    after: Seq<CredentialsView>,
    out: Result<(), ErrorView>,
) -> bool {
    exists|lookup: Result<Seq<char>, ErrorView>| #[trigger]
        engine.seals(cred.key, lookup) && (match lookup {
            Err(error) => fails_with(out, error) && after == before,
            Ok(k) => (failure is Some && fails_with(out, failure->Some_0) && after
                == before) || (
            if holds(before, k) {
                fails_with(out, name_taken()) && after == before
            } else {
                exists|record: Result<CredentialsView, ErrorView>| #[trigger]
                    seals_fields(engine, cred, k, record) && (match record {
                        Err(error) => fails_with(out, error) && after == before,
                        Ok(r) => gives(out, ()) && after == before.push(r),
                    })
            }),
        })
}

/// What storing a credential over whatever is stored under its name may
/// give: name, value and note are sealed, and the record takes the place
/// of every record under the sealed name, or is appended where there is
/// none. Whenever the answer is an error the store is as it was. Where
/// the store fails, its own error is the answer.
pub open spec fn overwrites<C: EncryptionService>(
    engine: Encryption<C>,
    failure: Option<ErrorView>,
    before: Seq<CredentialsView>,
    cred: CredentialsView,
    after: Seq<CredentialsView>,
    out: Result<(), ErrorView>,
) -> bool {
    exists|lookup: Result<Seq<char>, ErrorView>| #[trigger]
        engine.seals(cred.key, lookup) && (match lookup {
            Err(error) => fails_with(out, error) && after == before,
            Ok(k) => exists|record: Result<CredentialsView, ErrorView>| #[trigger]
                seals_fields(engine, cred, k, record) && (match record {
                    Err(error) => fails_with(out, error) && after == before,
                    Ok(r) => (failure is Some && fails_with(out, failure->Some_0)
                        && after == before)
                        || (gives(out, ()) && after == saved(before, r, true)),
                }),
        })
}

/// Seals the value and the note of a credential for the store, under an
/// already sealed name.
pub fn seal_fields<C: EncryptionService>(
    engine: &Encryption<C>,
    cred: &Credentials,
    lookup: String,
) -> (out: Result<Credentials, ErrorDetails>)
    requires
        storable(cred@.value),
        cred@.info matches Some(i) ==> storable(i),
    ensures
        seals_fields(*engine, cred@, lookup@, record_outcome(out)),
{
    let value = engine.seal_text(cred.value.as_str());
    let ghost seen_value = text_outcome(value);
    assert(engine.seals(cred@.value, seen_value));
    let value = match value {
        Ok(v) => v,
        Err(e) => {
            return Err(e);
        },
    };
    match &cred.info {
        None => {
            let record = Credentials { key: lookup, value, info: None };
            assert(record@ == CredentialsView {
                key: lookup@,
                value: seen_value->Ok_0,
                info: None,
            });
            Ok(record)
        },
        Some(note) => {
            assert(cred@.info == Some(note@));
            let info = engine.seal_text(note.as_str());
            let ghost seen_info = text_outcome(info);
            assert(engine.seals(cred@.info->Some_0, seen_info));
            match info {
                Ok(n) => {
                    let record = Credentials { key: lookup, value, info: Some(n) };
                    assert(record@ == CredentialsView {
                        key: lookup@,
                        value: seen_value->Ok_0,
                        info: Some(seen_info->Ok_0),
                    });
                    Ok(record)
                },
                Err(e) => Err(e),
            }
        },
    }
}

impl<SqlSrv: SqliteService, EncSrv: EncryptionService> CommandStruct<SqlSrv, EncSrv> {
    /// Stores a new credential. A credential whose name is stored already
    /// is refused with `AlreadyExists` and nothing is changed; the caller
    /// decides whether to overwrite.
    pub fn save_encrypt_value(&mut self, cred: Credentials) -> (out: Result<(), ErrorDetails>)
        requires
            storable_credential(cred@),
        ensures
            final(self).engine() == old(self).engine(),
            final(self).failure() == old(self).failure(),
            puts(
                old(self).engine(),
                old(self).failure(),
                old(self).store(),
                cred@,
                final(self).store(),
                unit_outcome(out),
            ),
    {
        let ghost before = self.store();
        let lookup = self.encryption_service.seal_text(cred.key.as_str());
        assert(self.engine().seals(cred@.key, text_outcome(lookup)));
        let lookup = match lookup {
            Ok(k) => k,
            Err(e) => {
                return Err(e);
            },
        };
        let exist = match self.sql_service.already_exist_in_sql(lookup.as_str()) {
            Ok(exist) => exist,
            Err(e) => {
                return Err(e);
            },
        };
        if exist {
            return Err(
                ErrorDetails::of_kind(
                    ErrorType::AlreadyExists,
                    "key with the same name already exist",
                ),
            );
        }
        let ghost k = lookup@;
        let record = seal_fields(&self.encryption_service, &cred, lookup);
        assert(seals_fields(self.engine(), cred@, k, record_outcome(record)));
        let record = match record {
            Ok(r) => r,
            Err(e) => {
                return Err(e);
            },
        };
        let ghost r = record@;
        match self.sql_service.save_to_sql(record, false) {
            Ok(()) => {
                assert(self.store() == before.push(r));
                Ok(())
            },
            Err(e) => Err(e),
        }
    }

    /// Stores a credential in the place of whatever is stored under its
    /// name, as the caller does once the operator has agreed to overwrite.
    pub fn overwrite_encrypt_value(&mut self, cred: Credentials) -> (out: Result<(), ErrorDetails>)
        requires
            storable_credential(cred@),
        ensures
            final(self).engine() == old(self).engine(),
            final(self).failure() == old(self).failure(),
            overwrites(
                old(self).engine(),
                old(self).failure(),
                old(self).store(),
                cred@,
                final(self).store(),
                unit_outcome(out),
            ),
    {
        let ghost before = self.store();
        let lookup = self.encryption_service.seal_text(cred.key.as_str());
        let ghost seen_lookup = text_outcome(lookup);
        assert(self.engine().seals(cred@.key, seen_lookup));
        let lookup = match lookup {
            Ok(k) => k,
            Err(e) => {
                return Err(e);
            },
        };
        let ghost k = lookup@;
        let record = seal_fields(&self.encryption_service, &cred, lookup);
        let ghost seen = record_outcome(record);
        assert(seals_fields(self.engine(), cred@, seen_lookup->Ok_0, seen));
        let record = match record {
            Ok(r) => r,
            Err(e) => {
                assert(fails_with(seen, e@));
                return Err(e);
            },
        };
        assert(gives(seen, record@));
        match self.sql_service.save_to_sql(record, true) {
            Ok(()) => {
                assert(self.store() == saved(before, seen->Ok_0, true));
                Ok(())
            },
            Err(e) => Err(e),
        }
    }
}

} // verus!
