//! The steady run: the operator's passphrase opens the stored secret key,
//! which authenticates the operator and completes the engine's keys.

use vstd::prelude::*;
use vstd::slice::slice_index_get;
use vstd::string::StringExecFns;
use vstd::utf8::*;

use crate::commands::get_value::answer_outcome;
use crate::commands::init_tool::{secret_key_name, PASSWORD_LENGTH};
use crate::commands::CommandStruct;
use crate::models::credentials::{Credentials, CredentialsView};
use crate::models::enums::ErrorType;
use crate::models::error::{
    fails_with,
    gives,
    invalid_password,
    no_secret_key,
    optional_text_outcome,
    text_outcome,
    text_seen,
    ErrorDetails,
    ErrorView,
};
use crate::services::encryption::{
    seals_own_key,
    storable,
    unlock_text,
    unlocks,
    Encryption,
    EncryptionService,
};
use crate::services::sql::{matching, saved, views, SqliteService};
use crate::utils::helpers::{adjust_password_length, normalizable, normalized};
use crate::utils::text::{lemma_text_of_encoding, text_from_utf8};

verus! {

/// First byte of the recovered secret that belongs to the secret key.
pub const KEY_START: usize = 4;

/// End of the secret key within the recovered secret, in bytes.
pub const KEY_END: usize = 32;

/// The secret key within a recovered secret: its bytes 4 to 32, where it
/// has that many and they are text by themselves.
pub open spec fn key_within(recovered: Seq<char>) -> Option<Seq<char>> {
    let bytes = encode_utf8(recovered);
    if bytes.len() >= 32 && valid_utf8(bytes.subrange(4, 32)) {
        Some(decode_utf8(bytes.subrange(4, 32)))
    } else {
        None
    }
}

/// Takes the secret key out of a recovered secret.
pub fn secret_key_from(recovered: &str) -> (key: Option<String>)
    ensures
        text_seen(key) == key_within(recovered@),
{
    let bytes = recovered.as_bytes();
    if bytes.len() < KEY_END {
        return None;
    }
    let mut part: Vec<u8> = Vec::new();
    let mut i: usize = KEY_START;
    while i < KEY_END
        invariant
            KEY_START <= i <= KEY_END <= bytes@.len(),
            part@ == bytes@.subrange(KEY_START as int, i as int),
        decreases KEY_END - i,
    {
        part.push(*slice_index_get(bytes, i));
        i = i + 1;
        assert(part@ =~= bytes@.subrange(KEY_START as int, i as int));
    }
    let ghost held = part@;
    match text_from_utf8(part) {
        Some(s) => {
            proof {
                lemma_text_of_encoding(s@, held);
            }
            Some(s)
        },
        None => None,
    }
}

/// The secret key that authenticating left in the engine, or the error,
/// as mathematical values.
pub open spec fn key_outcome(out: Result<(), ErrorDetails>, key: Seq<char>) -> Result<
    Seq<char>,
    ErrorView,
> {
    match out {
        Ok(_) => Ok(key),
        Err(e) => Err(e@),
    }
}

/// What authenticating may give for a passphrase: where no secret key is
/// stored, or the passphrase's key does not open the stored one, or what
/// it opens holds no key, the answer is `AuthenticationFailure`; else it
/// is the secret key. Where the store fails, its own error is the answer.
pub open spec fn authenticates<C: EncryptionService>(
    cipher: &C,
    failure: Option<ErrorView>,
    store: Seq<CredentialsView>,
    password: Seq<char>,
    out: Result<Seq<char>, ErrorView>,
) -> bool {
    let key = encode_utf8(normalized(password, 24));
    let rows = matching(store, secret_key_name());
    (failure is Some && fails_with(out, failure->Some_0)) || (if rows.len() == 0 {
        fails_with(out, no_secret_key())
    } else {
        exists|opened: Result<Seq<char>, ErrorView>| #[trigger]
            unlocks(cipher, key, key, rows[0].value, opened) && out == (match opened {
                Err(error) => Err(error),
                Ok(text) => match key_within(text) {
                    Some(k) => Ok(k),
                    None => Err(invalid_password()),
                },
            })
    })
}

/// What setting the secret key anew may give: the engine's own passphrase
/// key is sealed as a secret key; where it is too short and may not be
/// resized, the answer is `false` and nothing changes; else the sealed key
/// takes the place of every record named `secret_key`, or is appended
/// where there is none, and the answer is `true`. Whenever the answer is
/// an error the store is as it was. Where the store fails, its own error
/// is the answer.
pub open spec fn resets_key<C: EncryptionService>(
    engine: Encryption<C>,
    failure: Option<ErrorView>,
    before: Seq<CredentialsView>,
    resize: bool,
    after: Seq<CredentialsView>,
    out: Result<bool, ErrorView>,
) -> bool {
    exists|sealed: Result<Option<Seq<char>>, ErrorView>| #[trigger]
        seals_own_key(engine, resize, sealed) && (match sealed {
            Err(e) => fails_with(out, e) && after == before,
            Ok(None) => gives(out, false) && after == before,
            Ok(Some(v)) => (failure is Some && fails_with(out, failure->Some_0) && after
                == before) || (gives(out, true) && after == saved(
                before,
                CredentialsView { key: secret_key_name(), value: v, info: None },
                true,
            )),
        })
}

impl<SqlSrv: SqliteService, EncSrv: EncryptionService> CommandStruct<SqlSrv, EncSrv> {
    /// Sets the secret key anew: seals the engine's own passphrase key as
    /// a secret key and stores it in the place of the stored one. Says
    /// whether it did; it does not where the key is shorter than 32 bytes
    /// and `resize` does not allow to bring it to that length.
    pub fn set_secret_key(&mut self, resize: bool) -> (out: Result<bool, ErrorDetails>)
        requires
            resize && encode_utf8(old(self).engine().password()).len() < 32 ==> normalizable(
                old(self).engine().password(),
                32,
            ),
            encode_utf8(old(self).engine().password()).len() >= 32 ==> storable(
                old(self).engine().password(),
            ),
        ensures
            final(self).engine() == old(self).engine(),
            final(self).failure() == old(self).failure(),
            resets_key(
                old(self).engine(),
                old(self).failure(),
                old(self).store(),
                resize,
                final(self).store(),
                answer_outcome(out),
            ),
    {
        let ghost before = self.store();
        let sealed = self.encryption_service.encrypt_secret_key(resize);
        let ghost seen = optional_text_outcome(sealed);
        assert(seals_own_key(self.engine(), resize, seen));
        let value = match sealed {
            Ok(Some(value)) => value,
            Ok(None) => {
                return Ok(false);
            },
            Err(e) => {
                return Err(e);
            },
        };
        let record = Credentials { key: String::from_str("secret_key"), value, info: None };
        assert(record@ == CredentialsView {
            key: secret_key_name(),
            value: seen->Ok_0->Some_0,
            info: None,
        });
        match self.sql_service.save_to_sql(record, true) {
            Ok(()) => Ok(true),
            Err(e) => Err(e),
        }
    }

    /// Authenticates the operator and keys the engine: the passphrase is
    /// brought to key length and must open the stored secret key. On
    /// success the engine holds the passphrase's key and the secret key;
    /// on failure it is left as it was. The store is not changed.
    pub fn extract_secret_key(&mut self, password: &str) -> (out: Result<(), ErrorDetails>)
        requires
            normalizable(password@, 24),
        ensures
            final(self).store() == old(self).store(),
            final(self).failure() == old(self).failure(),
            final(self).engine().cipher() == old(self).engine().cipher(),
            out is Err ==> final(self).engine() == old(self).engine(),
            out is Ok ==> final(self).engine().password() == normalized(password@, 24),
            authenticates(
                &old(self).engine().cipher(),
                old(self).failure(),
                old(self).store(),
                password@,
                key_outcome(out, final(self).engine().key()),
            ),
    {
        let found = match self.sql_service.get_from_sql("secret_key") {
            Ok(found) => found,
            Err(e) => {
                return Err(e);
            },
        };
        if found.len() == 0 {
            return Err(
                ErrorDetails::of_kind(ErrorType::AuthenticationFailure, "no secret key is stored"),
            );
        }
        assert(views(found@)[0] == found@[0]@);
        let key = adjust_password_length(password, PASSWORD_LENGTH);
        let opened = unlock_text(
            self.encryption_service.cipher_ref(),
            key.as_str(),
            key.as_str(),
            found[0].value.as_str(),
        );
        let ghost seen = text_outcome(opened);
        assert(unlocks(
            &self.engine().cipher(),
            encode_utf8(normalized(password@, 24)),
            encode_utf8(normalized(password@, 24)),
            matching(self.store(), secret_key_name())[0].value,
            seen,
        ));
        let recovered = match opened {
            Ok(text) => text,
            Err(e) => {
                return Err(e);
            },
        };
        match secret_key_from(recovered.as_str()) {
            Some(secret) => {
                self.encryption_service.set_keys(key, secret);
                Ok(())
            },
            None => Err(
                ErrorDetails::of_kind(ErrorType::AuthenticationFailure, "Invalid Password"),
            ),
        }
    }
}

} // verus!
