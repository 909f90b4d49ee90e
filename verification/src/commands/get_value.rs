use vstd::prelude::*;

use crate::commands::CommandStruct;
use crate::models::credentials::{note_of, Credentials, CredentialsView};
use crate::models::error::{fails_with, gives, text_outcome, ErrorDetails, ErrorView};
use crate::services::encryption::{storable, Encryption, EncryptionService};
use crate::services::sql::{holds, matching, views, SqliteService};

verus! {

/// What opening a stored record under a name may give: the record's value
/// and note decrypted, under the plain name that was asked for. A note
/// that decrypts to the empty text is no note.
pub open spec fn opens_record<C: EncryptionService>(
    engine: Encryption<C>,
    name: Seq<char>,
    row: CredentialsView,
    out: Result<CredentialsView, ErrorView>,
) -> bool {
    exists|value: Result<Seq<char>, ErrorView>| #[trigger]
        engine.opens(row.value, value) && (match value {
            Err(error) => fails_with(out, error),
            Ok(v) => match row.info {
                None => gives(out, CredentialsView { key: name, value: v, info: None }),
                Some(sealed) => exists|info: Result<Seq<char>, ErrorView>| #[trigger]
                    engine.opens(sealed, info) && (match info {
                        Err(error) => fails_with(out, error),
                        Ok(i) => gives(
                            out,
                            CredentialsView { key: name, value: v, info: note_of(i) },
                        ),
                    }),
            },
        })
}

/// What reading a credential by name may give: the name is sealed, the
/// store is asked for the records under the sealed name, and the oldest of
/// them is opened. No record is no error. Where the store fails, its own
/// error is the answer.
pub open spec fn gets<C: EncryptionService>(
    engine: Encryption<C>,
    failure: Option<ErrorView>,
    store: Seq<CredentialsView>,
    name: Seq<char>,
    out: Result<Option<CredentialsView>, ErrorView>,
) -> bool {
    exists|lookup: Result<Seq<char>, ErrorView>| #[trigger]
        engine.seals(name, lookup) && (match lookup {
            Err(error) => fails_with(out, error),
            Ok(k) => (failure is Some && fails_with(out, failure->Some_0)) || (
            if matching(store, k).len() == 0 {
                gives(out, None)
            } else {
                exists|opened: Result<CredentialsView, ErrorView>| #[trigger]
                    opens_record(engine, name, matching(store, k)[0], opened) && out == (
                    match opened {
                        Ok(c) => Ok(Some(c)),
                        Err(error) => Err(error),
                    })
            }),
        })
}

/// What asking whether a name is stored may give: the name is sealed and
/// the store is asked whether it holds a record under the sealed name.
/// Where the store fails, its own error is the answer.
pub open spec fn finds<C: EncryptionService>(
    engine: Encryption<C>,
    failure: Option<ErrorView>,
    store: Seq<CredentialsView>,
    name: Seq<char>,
    out: Result<bool, ErrorView>,
) -> bool {
    exists|lookup: Result<Seq<char>, ErrorView>| #[trigger]
        engine.seals(name, lookup) && (match lookup {
            Err(error) => fails_with(out, error),
            Ok(k) => (failure is Some && fails_with(out, failure->Some_0)) || gives(
                out,
                holds(store, k),
            ),
        })
}

/// An answer or an error, as mathematical values.
pub open spec fn answer_outcome(out: Result<bool, ErrorDetails>) -> Result<bool, ErrorView> {
    match out {
        Ok(answer) => Ok(answer),
        Err(e) => Err(e@),
    }
}

/// A credential that may be missing, or an error, as mathematical values.
pub open spec fn found_outcome(out: Result<Option<Credentials>, ErrorDetails>) -> Result<
    Option<CredentialsView>,
    ErrorView,
> {
    match out {
        Ok(Some(c)) => Ok(Some(c@)),
        Ok(None) => Ok(None),
        Err(e) => Err(e@),
    }
}

/// A credential or an error, as mathematical values.
pub open spec fn record_outcome(out: Result<Credentials, ErrorDetails>) -> Result<
    CredentialsView,
    ErrorView,
> {
    match out {
        Ok(c) => Ok(c@),
        Err(e) => Err(e@),
    }
}

/// Opens a stored record under the plain name that was asked for.
pub fn open_record<C: EncryptionService>(
    engine: &Encryption<C>,
    name: &str,
    row: &Credentials,
) -> (out: Result<Credentials, ErrorDetails>)
    ensures
        opens_record(*engine, name@, row@, record_outcome(out)),
        out matches Ok(c) ==> c.well_formed(),
{
    let value = engine.open_text(row.value.as_str());
    let ghost seen_value = text_outcome(value);
    assert(engine.opens(row@.value, seen_value));
    let value = match value {
        Ok(v) => v,
        Err(e) => {
            assert(opens_record(*engine, name@, row@, Err(e@)));
            return Err(e);
        },
    };
    match &row.info {
        None => {
            let c = Credentials { key: name.to_owned(), value, info: None };
            assert(c@ == CredentialsView { key: name@, value: seen_value->Ok_0, info: None });
            assert(opens_record(*engine, name@, row@, Ok(c@)));
            Ok(c)
        },
        Some(sealed) => {
            let info = engine.open_text(sealed.as_str());
            let ghost seen_info = text_outcome(info);
            assert(row@.info == Some(sealed@));
            assert(engine.opens(row@.info->Some_0, seen_info));
            match info {
                Ok(i) => {
                    let note = if i.as_str().is_empty() {
                        None
                    } else {
                        Some(i)
                    };
                    let c = Credentials { key: name.to_owned(), value, info: note };
                    assert(c@ == CredentialsView {
                        key: name@,
                        value: seen_value->Ok_0,
                        info: note_of(seen_info->Ok_0),
                    });
                    assert(opens_record(*engine, name@, row@, Ok(c@)));
                    Ok(c)
                },
                Err(e) => {
                    assert(opens_record(*engine, name@, row@, Err(e@)));
                    Err(e)
                },
            }
        },
    }
}

impl<SqlSrv: SqliteService, EncSrv: EncryptionService> CommandStruct<SqlSrv, EncSrv> {
    /// Whether a credential is stored under a name. The store is left as
    /// it was.
    pub fn key_exists(&mut self, key: &str) -> (out: Result<bool, ErrorDetails>)
        requires
            storable(key@),
        ensures
            final(self).store() == old(self).store(),
            final(self).engine() == old(self).engine(),
            final(self).failure() == old(self).failure(),
            finds(
                old(self).engine(),
                old(self).failure(),
                old(self).store(),
                key@,
                answer_outcome(out),
            ),
    {
        let lookup = self.encryption_service.seal_text(key);
        assert(self.engine().seals(key@, text_outcome(lookup)));
        let lookup = match lookup {
            Ok(k) => k,
            Err(e) => {
                return Err(e);
            },
        };
        self.sql_service.already_exist_in_sql(lookup.as_str())
    }

    /// Reads the credential stored under a name. The result carries the
    /// plain name as it was asked for; the store is left as it was.
    pub fn get_decrypt_value(
        &mut self,
        key: &str,
    ) -> (out: Result<Option<Credentials>, ErrorDetails>)
        requires
            storable(key@),
        ensures
            final(self).store() == old(self).store(),
            final(self).engine() == old(self).engine(),
            final(self).failure() == old(self).failure(),
            gets(
                old(self).engine(),
                old(self).failure(),
                old(self).store(),
                key@,
                found_outcome(out),
            ),
            out matches Ok(Some(c)) ==> c.well_formed(),
    {
        let lookup = self.encryption_service.seal_text(key);
        assert(self.engine().seals(key@, text_outcome(lookup)));
        let lookup = match lookup {
            Ok(k) => k,
            Err(e) => {
                return Err(e);
            },
        };
        let found = match self.sql_service.get_from_sql(lookup.as_str()) {
            Ok(found) => found,
            Err(e) => {
                return Err(e);
            },
        };
        if found.len() == 0 {
            return Ok(None);
        }
        assert(views(found@)[0] == found@[0]@);
        let opened = open_record(&self.encryption_service, key, &found[0]);
        assert(opens_record(
            self.engine(),
            key@,
            matching(self.store(), lookup@)[0],
            record_outcome(opened),
        ));
        match opened {
            Ok(c) => Ok(Some(c)),
            Err(e) => Err(e),
        }
    }
}

} // verus!
