//! What holds of the commands taken together, for every store and every
//! pair of block ciphers that behave as ciphers do.

use vstd::prelude::*;
use vstd::utf8::*;

use crate::commands::decrypt_file::opens_file;
use crate::commands::delete_value::deletes;
use crate::commands::get_value::{gets, opens_record};
use crate::commands::init_tool::{bootstraps, is_secret, secret_key_name};
use crate::commands::save_value::{puts, seals_fields};
use crate::commands::secret_key::{authenticates, key_within};
use crate::models::credentials::CredentialsView;
use crate::models::error::{fails_with, gives, invalid_password, name_taken, ErrorView};
use crate::services::encryption::{
    decrypts,
    encrypts,
    layers_invert,
    seals_text,
    unlocks,
    Encryption,
    EncryptionService,
};
use crate::services::laws::{
    lemma_ciphertext_length,
    lemma_open_after_seal,
    lemma_round_trip,
    lemma_seals_text_deterministic,
};
use crate::services::padding::{padded_len, survives_padding};
use crate::services::sql::{holds, lemma_holds_iff_matching, matching, without};
use crate::utils::encoding::{base64_text, codec_inverts, decoded};
use crate::utils::helpers::normalized;
use crate::utils::text::{ascii_text, lemma_ascii_bytes_are_text};

verus! {

/// Appending a record under a key that no record has makes it the one
/// record under that key.
pub proof fn lemma_matching_after_push(
    records: Seq<CredentialsView>,
    record: CredentialsView,
)
    requires
        !holds(records, record.key),
    ensures
        matching(records.push(record), record.key) == seq![record],
{
    lemma_holds_iff_matching(records, record.key);
    assert(records.push(record).drop_last() =~= records);
    assert(matching(records, record.key) =~= Seq::<CredentialsView>::empty());
    assert(matching(records.push(record), record.key) =~= seq![record]);
}

/// Once the records under a key have been removed, none is under it.
pub proof fn lemma_matching_after_without(records: Seq<CredentialsView>, key: Seq<char>)
    ensures
        matching(without(records, key), key).len() == 0,
    decreases records.len(),
{
    if records.len() > 0 {
        let front = records.drop_last();
        lemma_matching_after_without(front, key);
        if records.last().key != key {
            assert(without(front, key).push(records.last()).drop_last() =~= without(front, key));
        }
    }
}

/// What a successful store has done: the name was sealed to a lookup key
/// that no record had, value and note were sealed to a record under that
/// key, and the record was appended.
pub proof fn lemma_put_appended<C: EncryptionService>(
    engine: Encryption<C>,
    failure: Option<ErrorView>,
    start: Seq<CredentialsView>,
    cred: CredentialsView,
    stored: Seq<CredentialsView>,
) -> (record: CredentialsView)
    requires
        puts(engine, failure, start, cred, stored, Ok(())),
    ensures
        engine.seals(cred.key, Ok(record.key)),
        !holds(start, record.key),
        seals_fields(engine, cred, record.key, Ok(record)),
        stored == start.push(record),
{
    let lookup = choose|lookup: Result<Seq<char>, ErrorView>| #[trigger]
        engine.seals(cred.key, lookup) && lookup is Ok && !holds(start, lookup->Ok_0) && exists|
            record: Result<CredentialsView, ErrorView>,
        | #[trigger]
            seals_fields(engine, cred, lookup->Ok_0, record) && record is Ok && stored
                == start.push(record->Ok_0);
    let record = choose|record: Result<CredentialsView, ErrorView>| #[trigger]
        seals_fields(engine, cred, lookup->Ok_0, record) && record is Ok && stored == start.push(
            record->Ok_0,
        );
    record->Ok_0
}

/// A credential is stored once: after a credential has been stored, to
/// store one of the same name again is refused with `AlreadyExists` and
/// leaves the store as the first call left it, whatever value and note the
/// second credential has. A store that fails answers with its own error
/// instead, and is then left as it was too.
pub proof fn lemma_second_put_refused<C: EncryptionService>(
    engine: Encryption<C>,
    failure: Option<ErrorView>,
    start: Seq<CredentialsView>,
    first: CredentialsView,
    between: Seq<CredentialsView>,
    second: CredentialsView,
    end: Seq<CredentialsView>,
    out: Result<(), ErrorView>,
)
    requires
        engine.deterministic(),
        first.key == second.key,
        puts(engine, failure, start, first, between, Ok(())),
        puts(engine, failure, between, second, end, out),
    ensures
        end == between,
        fails_with(out, name_taken()) || (failure is Some && fails_with(out, failure->Some_0)),
{
    let record = lemma_put_appended(engine, failure, start, first, between);
    let k = record.key;
    assert(between[start.len() as int].key == k);
    assert(holds(between, k));
    assert forall|again: Result<Seq<char>, ErrorView>| #[trigger]
        engine.seals(second.key, again) implies gives(again, k) by {
        lemma_seals_text_deterministic(
            &engine.cipher(),
            engine.password_key(),
            engine.secret_key(),
            first.key,
            Ok(k),
            again,
        );
    }
}

/// What was stored is what is read: after a credential has been stored,
/// reading its name gives the credential back exactly. This is so for
/// every credential whose value and note survive padding, with ciphers
/// that are deterministic and decrypt what they encrypted and a codec that
/// reads what it wrote for ciphertexts of up to `limit` bytes, which the
/// padded value and note must not exceed. A store that fails answers with its own error
/// instead.
pub proof fn lemma_get_after_put<C: EncryptionService>(
    engine: Encryption<C>,
    failure: Option<ErrorView>,
    start: Seq<CredentialsView>,
    cred: CredentialsView,
    stored: Seq<CredentialsView>,
    limit: nat,
    out: Result<Option<CredentialsView>, ErrorView>,
)
    requires
        engine.deterministic(),
        engine.inverts(),
        codec_inverts(limit),
        cred.well_formed(),
        survives_padding(cred.value),
        padded_len(cred.value.len()) <= limit,
        cred.info matches Some(i) ==> survives_padding(i) && padded_len(i.len()) <= limit,
        puts(engine, failure, start, cred, stored, Ok(())),
        gets(engine, failure, stored, cred.key, out),
    ensures
        gives(out, Some(cred)) || (failure is Some && fails_with(out, failure->Some_0)),
{
    let record = lemma_put_appended(engine, failure, start, cred, stored);
    let k = record.key;
    lemma_matching_after_push(start, record);
    assert(matching(stored, k)[0] == record);
    assert forall|again: Result<Seq<char>, ErrorView>| #[trigger]
        engine.seals(cred.key, again) implies gives(again, k) by {
        lemma_seals_text_deterministic(
            &engine.cipher(),
            engine.password_key(),
            engine.secret_key(),
            cred.key,
            Ok(k),
            again,
        );
    }
    assert forall|opened: Result<CredentialsView, ErrorView>| #[trigger]
        opens_record(engine, cred.key, record, opened) implies gives(opened, cred) by {
        lemma_opened_is_sealed(engine, cred, k, record, limit, opened);
    }
}

/// A record opens to the credential it was sealed from.
proof fn lemma_opened_is_sealed<C: EncryptionService>(
    engine: Encryption<C>,
    cred: CredentialsView,
    lookup: Seq<char>,
    record: CredentialsView,
    limit: nat,
    opened: Result<CredentialsView, ErrorView>,
)
    requires
        engine.inverts(),
        codec_inverts(limit),
        cred.well_formed(),
        survives_padding(cred.value),
        padded_len(cred.value.len()) <= limit,
        cred.info matches Some(i) ==> survives_padding(i) && padded_len(i.len()) <= limit,
        seals_fields(engine, cred, lookup, Ok(record)),
        opens_record(engine, cred.key, record, opened),
    ensures
        gives(opened, cred),
{
    let cipher = &engine.cipher();
    let pk = engine.password_key();
    let sk = engine.secret_key();
    assert forall|v: Result<Seq<char>, ErrorView>| #[trigger]
        engine.opens(record.value, v) implies gives(v, cred.value) by {
        lemma_open_after_seal(cipher, pk, sk, cred.value, record.value, v);
    }
    match cred.info {
        None => {},
        Some(i) => {
            assert forall|n: Result<Seq<char>, ErrorView>| #[trigger]
                engine.opens(record.info->Some_0, n) implies gives(n, i) by {
                lemma_open_after_seal(cipher, pk, sk, i, record.info->Some_0, n);
            }
        },
    }
}

/// What was deleted is gone: after a name has been deleted, reading it
/// finds nothing. A store that fails answers with its own error instead.
pub proof fn lemma_get_after_delete<C: EncryptionService>(
    engine: Encryption<C>,
    failure: Option<ErrorView>,
    start: Seq<CredentialsView>,
    name: Seq<char>,
    left: Seq<CredentialsView>,
    out: Result<Option<CredentialsView>, ErrorView>,
)
    requires
        engine.deterministic(),
        deletes(engine, failure, start, name, left, Ok(())),
        gets(engine, failure, left, name, out),
    ensures
        gives(out, None) || (failure is Some && fails_with(out, failure->Some_0)),
{
    let k1 = choose|k: Result<Seq<char>, ErrorView>| #[trigger]
        engine.seals(name, k) && k is Ok && left == without(start, k->Ok_0);
    lemma_matching_after_without(start, k1->Ok_0);
    assert forall|k2: Result<Seq<char>, ErrorView>| #[trigger]
        engine.seals(name, k2) implies k2 == k1 by {
        lemma_seals_text_deterministic(
            &engine.cipher(),
            engine.password_key(),
            engine.secret_key(),
            name,
            k1,
            k2,
        );
    }
}

/// A generated secret survives padding, and the key within it is its
/// characters 4 to 32.
pub proof fn lemma_secret_holds_key(secret: Seq<char>)
    requires
        is_secret(secret),
    ensures
        survives_padding(secret),
        key_within(secret) == Some(secret.subrange(4, 32)),
{
    assert(is_ascii_chars(secret));
    is_ascii_chars_encode_utf8(secret);
    let bytes = encode_utf8(secret);
    let part = bytes.subrange(4, 32);
    assert forall|i: int| 0 <= i < part.len() implies part[i] < 0x80 by {
        assert(part[i] == bytes[i + 4]);
        assert(secret[i + 4] as u8 == bytes[i + 4]);
    }
    lemma_ascii_bytes_are_text(part);
    assert forall|i: int| 0 <= i < 28 implies ascii_text(part)[i] == secret.subrange(4, 32)[i] by {
        assert(part[i] == bytes[i + 4]);
        assert(secret[i + 4] as u8 == bytes[i + 4]);
    }
    assert(ascii_text(part) =~= secret.subrange(4, 32));
    assert(secret.last() == secret[31]);
}

/// The passphrase that set the vault up opens it: after the first run,
/// authenticating with the same passphrase gives the key within the secret
/// that was sealed, with ciphers that decrypt what they encrypted and a
/// codec that reads what it wrote for the secret's 32 bytes of ciphertext.
/// A store that fails answers with its own error instead.
pub proof fn lemma_authenticates_after_bootstrap<C: EncryptionService>(
    cipher: &C,
    failure: Option<ErrorView>,
    start: Seq<CredentialsView>,
    password: Seq<char>,
    secret: Seq<char>,
    stored: Seq<CredentialsView>,
    out: Result<Seq<char>, ErrorView>,
)
    requires
        layers_invert(
            cipher,
            encode_utf8(normalized(password, 24)),
            encode_utf8(normalized(password, 24)),
        ),
        codec_inverts(32),
        is_secret(secret),
        bootstraps(cipher, failure, start, password, secret, stored, Ok(())),
        authenticates(cipher, failure, stored, password, out),
    ensures
        gives(out, secret.subrange(4, 32)) || (failure is Some && fails_with(out, failure->Some_0)),
{
    let key = encode_utf8(normalized(password, 24));
    lemma_secret_holds_key(secret);
    let sealed = choose|sealed: Result<Seq<char>, ErrorView>| #[trigger]
        seals_text(cipher, key, key, secret, sealed) && sealed is Ok && stored == start.push(
            CredentialsView { key: secret_key_name(), value: sealed->Ok_0, info: None },
        );
    let record = CredentialsView { key: secret_key_name(), value: sealed->Ok_0, info: None };
    lemma_matching_after_push(start, record);
    assert(matching(stored, secret_key_name())[0] == record);
    assert forall|opened: Result<Seq<char>, ErrorView>| #[trigger]
        unlocks(cipher, key, key, record.value, opened) implies gives(opened, secret) by {
        let c = choose|c: Result<Seq<u8>, ErrorView>| #[trigger]
            encrypts(cipher, key, key, secret, c) && sealed == (match c {
                Ok(bytes) => Ok::<Seq<char>, ErrorView>(base64_text(bytes)),
                Err(error) => Err(error),
            });
        let bytes = c->Ok_0;
        lemma_ciphertext_length(cipher, key, key, secret, bytes);
        assert(decoded(base64_text(bytes)) == Some(bytes));
        assert forall|inner: Result<Seq<char>, ErrorView>| #[trigger]
            decrypts(cipher, key, key, bytes, inner) implies gives(inner, secret) by {
            lemma_round_trip(cipher, key, key, secret, bytes, inner);
        }
    }
}

/// The first value stays: after a credential has been stored and a second
/// one of the same name has been offered, reading the name still gives the
/// first credential exactly, under the conditions of the two laws that
/// this one joins. A store that fails answers with its own error instead.
pub proof fn lemma_first_value_survives<C: EncryptionService>(
    engine: Encryption<C>,
    failure: Option<ErrorView>,
    start: Seq<CredentialsView>,
    first: CredentialsView,
    between: Seq<CredentialsView>,
    second: CredentialsView,
    end: Seq<CredentialsView>,
    refused: Result<(), ErrorView>,
    limit: nat,
    out: Result<Option<CredentialsView>, ErrorView>,
)
    requires
        engine.deterministic(),
        engine.inverts(),
        codec_inverts(limit),
        first.well_formed(),
        survives_padding(first.value),
        padded_len(first.value.len()) <= limit,
        first.info matches Some(i) ==> survives_padding(i) && padded_len(i.len()) <= limit,
        first.key == second.key,
        puts(engine, failure, start, first, between, Ok(())),
        puts(engine, failure, between, second, end, refused),
        gets(engine, failure, end, first.key, out),
    ensures
        refused is Err,
        gives(out, Some(first)) || (failure is Some && fails_with(out, failure->Some_0)),
{
    lemma_second_put_refused(engine, failure, start, first, between, second, end, refused);
    lemma_get_after_put(engine, failure, start, first, between, limit, out);
}

/// A passphrase that does not open the stored key is refused: where a
/// secret key is stored and whatever the passphrase's key unlocks is an
/// error or holds no key, authenticating gives `AuthenticationFailure`
/// with the message `Invalid Password`. A store that fails answers with
/// its own error instead.
pub proof fn lemma_unopened_key_refused<C: EncryptionService>(
    cipher: &C,
    failure: Option<ErrorView>,
    store: Seq<CredentialsView>,
    password: Seq<char>,
    out: Result<Seq<char>, ErrorView>,
)
    requires
        holds(store, secret_key_name()),
        forall|opened: Result<Seq<char>, ErrorView>| #[trigger]
            unlocks(
                cipher,
                encode_utf8(normalized(password, 24)),
                encode_utf8(normalized(password, 24)),
                matching(store, secret_key_name())[0].value,
                opened,
            ) ==> opened is Err || key_within(opened->Ok_0) is None,
        authenticates(cipher, failure, store, password, out),
    ensures
        fails_with(out, invalid_password()) || (failure is Some && fails_with(
            out,
            failure->Some_0,
        )),
{
    lemma_holds_iff_matching(store, secret_key_name());
}

/// A file comes back: the contents of a file that was encrypted are given
/// back exactly when the encrypted contents are decrypted under the same
/// keys, with ciphers that decrypt what they encrypted and a codec that
/// reads what it wrote for up to `limit` bytes, which neither the contents
/// nor the padded base64 text of them may exceed.
pub proof fn lemma_file_round_trip<C: EncryptionService>(
    engine: Encryption<C>,
    contents: Seq<u8>,
    sealed: Seq<char>,
    limit: nat,
    out: Result<Seq<u8>, ErrorView>,
)
    requires
        engine.inverts(),
        codec_inverts(limit),
        contents.len() <= limit,
        padded_len(base64_text(contents).len()) <= limit,
        survives_padding(base64_text(contents)),
        engine.seals(base64_text(contents), Ok(sealed)),
        opens_file(engine, encode_utf8(sealed), out),
    ensures
        gives(out, contents),
{
    let cipher = &engine.cipher();
    let pk = engine.password_key();
    let sk = engine.secret_key();
    let text = base64_text(contents);
    let c = choose|c: Result<Seq<u8>, ErrorView>| #[trigger]
        encrypts(cipher, pk, sk, text, c) && c is Ok && sealed == base64_text(c->Ok_0);
    let bytes = c->Ok_0;
    lemma_ciphertext_length(cipher, pk, sk, text, bytes);
    assert(decoded(base64_text(bytes)) == Some(bytes));
    assert(decoded(base64_text(contents)) == Some(contents));
    assert forall|opened: Result<Seq<char>, ErrorView>| #[trigger]
        decrypts(cipher, pk, sk, bytes, opened) implies gives(opened, text) by {
        lemma_round_trip(cipher, pk, sk, text, bytes, opened);
    }
}

} // verus!
