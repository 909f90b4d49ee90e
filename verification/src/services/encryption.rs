//! The cipher engine: two block ciphers in sequence over a padded buffer.
//!
//! The outer layer is keyed by the secret key that the vault holds, the
//! inner layer by the key made from the operator's passphrase. The block
//! ciphers themselves are supplied by the caller through
//! [`EncryptionService`]; the engine decides what is handed to them, in
//! which order and under which key, and says of its results exactly how
//! they come from what the ciphers returned.

use vstd::prelude::*;
use vstd::utf8::*;

use crate::models::enums::ErrorType;
use crate::models::error::{
    broken_blocks,
    bytes_outcome,
    fails_with,
    gives,
    invalid_length,
    invalid_password,
    made,
    not_base64,
    not_text,
    ok_or,
    optional_text_outcome,
    text_outcome,
    unusable_keys,
    ErrorDetails,
    ErrorView,
};
use crate::services::padding::{
    pad_plaintext,
    padded_buffer,
    padded_len,
    recover_plaintext,
    recovered,
    BLOCK_SIZE,
};
use crate::utils::encoding::{base64_encode, base64_text, decode_text, decoded, fits_base64};
use crate::utils::helpers::{
    adjust_password_length,
    lemma_normalized_chars,
    normalizable,
    normalized,
};

verus! {

/// Size in bytes of the key made from the passphrase, which keys the inner
/// cipher.
pub const PASSWORD_KEY_SIZE: usize = 24;

/// Least size in bytes of the secret key, which keys the outer cipher.
pub const MIN_SECRET_KEY_SIZE: usize = 16;

/// Greatest size in bytes of the secret key.
pub const MAX_SECRET_KEY_SIZE: usize = 32;

/// The two block ciphers that the engine is built on, each run over whole
/// blocks in the cipher's native block mode. The library promises an
/// implementation keys of the right size and whole blocks; it asks nothing
/// of what comes back and checks the length itself.
pub trait EncryptionService {
    /// Encrypts whole 16-byte blocks with Twofish.
    fn twofish_encrypt(&self, key: &[u8], blocks: &[u8]) -> (out: Vec<u8>)
        requires
            16 <= key@.len() <= 32,
            blocks@.len() % 16 == 0,
    ;

    /// Decrypts whole 16-byte blocks with Twofish.
    fn twofish_decrypt(&self, key: &[u8], blocks: &[u8]) -> (out: Vec<u8>)
        requires
            16 <= key@.len() <= 32,
            blocks@.len() % 16 == 0,
    ;

    /// Encrypts whole 8-byte blocks with triple DES.
    fn des3_encrypt(&self, key: &[u8], blocks: &[u8]) -> (out: Vec<u8>)
        requires
            key@.len() == 24,
            blocks@.len() % 8 == 0,
    ;

    /// Decrypts whole 8-byte blocks with triple DES.
    fn des3_decrypt(&self, key: &[u8], blocks: &[u8]) -> (out: Vec<u8>)
        requires
            key@.len() == 24,
            blocks@.len() % 8 == 0,
    ;
}

/// `out` is something the outer cipher may return when it encrypts
/// `blocks` under `key`.
pub open spec fn outer_seals<C: EncryptionService>(
    cipher: &C,
    key: Seq<u8>,
    blocks: Seq<u8>,
    out: Seq<u8>,
) -> bool {
    exists|k: &[u8], b: &[u8], o: Vec<u8>|
        k@ == key && b@ == blocks && o@ == out && call_ensures(
            C::twofish_encrypt,
            (cipher, k, b),
            o,
        )
}

/// `out` is something the outer cipher may return when it decrypts
/// `blocks` under `key`.
pub open spec fn outer_opens<C: EncryptionService>(
    cipher: &C,
    key: Seq<u8>,
    blocks: Seq<u8>,
    out: Seq<u8>,
) -> bool {
    exists|k: &[u8], b: &[u8], o: Vec<u8>|
        k@ == key && b@ == blocks && o@ == out && call_ensures(
            C::twofish_decrypt,
            (cipher, k, b),
            o,
        )
}

/// `out` is something the inner cipher may return when it encrypts
/// `blocks` under `key`.
pub open spec fn inner_seals<C: EncryptionService>(
    cipher: &C,
    key: Seq<u8>,
    blocks: Seq<u8>,
    out: Seq<u8>,
) -> bool {
    exists|k: &[u8], b: &[u8], o: Vec<u8>|
        k@ == key && b@ == blocks && o@ == out && call_ensures(
            C::des3_encrypt,
            (cipher, k, b),
            o,
        )
}

/// `out` is something the inner cipher may return when it decrypts
/// `blocks` under `key`.
pub open spec fn inner_opens<C: EncryptionService>(
    cipher: &C,
    key: Seq<u8>,
    blocks: Seq<u8>,
    out: Seq<u8>,
) -> bool {
    exists|k: &[u8], b: &[u8], o: Vec<u8>|
        k@ == key && b@ == blocks && o@ == out && call_ensures(
            C::des3_decrypt,
            (cipher, k, b),
            o,
        )
}

/// Whether a pair of keys can key the two ciphers.
pub open spec fn keys_usable(password_key: Seq<u8>, secret_key: Seq<u8>) -> bool {
    &&& password_key.len() == 24
    &&& 16 <= secret_key.len() <= 32
}

/// What both layers together may give for a buffer of whole blocks: the
/// outer cipher under the secret key, then the inner cipher under the
/// password key. `None` stands for a layer that returned a buffer of
/// another length than it was given.
pub open spec fn seals<C: EncryptionService>(
    cipher: &C,
    password_key: Seq<u8>,
    secret_key: Seq<u8>,
    buffer: Seq<u8>,
    out: Option<Seq<u8>>,
) -> bool {
    exists|stage: Seq<u8>| #[trigger]
        outer_seals(cipher, secret_key, buffer, stage) && (if stage.len() != buffer.len() {
            out is None
        } else {
            exists|end: Seq<u8>| #[trigger]
                inner_seals(cipher, password_key, stage, end) && out == (if end.len()
                    == stage.len() {
                    Some(end)
                } else {
                    None
                })
        })
}

/// What both layers together may give back for a ciphertext of whole
/// blocks: the inner cipher under the password key, then the outer cipher
/// under the secret key. `None` stands for a layer that returned a buffer
/// of another length than it was given.
pub open spec fn opens<C: EncryptionService>(
    cipher: &C,
    password_key: Seq<u8>,
    secret_key: Seq<u8>,
    buffer: Seq<u8>,
    out: Option<Seq<u8>>,
) -> bool {
    exists|stage: Seq<u8>| #[trigger]
        inner_opens(cipher, password_key, buffer, stage) && (if stage.len() != buffer.len() {
            out is None
        } else {
            exists|end: Seq<u8>| #[trigger]
                outer_opens(cipher, secret_key, stage, end) && out == (if end.len()
                    == stage.len() {
                    Some(end)
                } else {
                    None
                })
        })
}

/// What `encrypt` may return for a text: an error where the keys cannot
/// key the ciphers or a layer broke the block structure, else what the two
/// layers gave for the text's padded buffer.
pub open spec fn encrypts<C: EncryptionService>(
    cipher: &C,
    password_key: Seq<u8>,
    secret_key: Seq<u8>,
    text: Seq<char>,
    out: Result<Seq<u8>, ErrorView>,
) -> bool {
    if !keys_usable(password_key, secret_key) {
        fails_with(out, unusable_keys())
    } else {
        exists|sealed: Option<Seq<u8>>| #[trigger]
            seals(cipher, password_key, secret_key, padded_buffer(text), sealed) && out == (
            match sealed {
                Some(c) => Ok(c),
                None => Err(broken_blocks()),
            })
    }
}

/// The text, or the error, that a decrypted buffer stands for.
pub open spec fn read_back(opened: Option<Seq<u8>>) -> Result<Seq<char>, ErrorView> {
    match opened {
        None => Err(broken_blocks()),
        Some(buffer) => ok_or(recovered(buffer), not_text()),
    }
}

/// What `decrypt` may return for a ciphertext: `InvalidCiphertextLength`
/// where it is not a whole number of blocks; else an error where the keys
/// cannot key the ciphers; else the reading of what the two layers gave
/// back.
pub open spec fn decrypts<C: EncryptionService>(
    cipher: &C,
    password_key: Seq<u8>,
    secret_key: Seq<u8>,
    data: Seq<u8>,
    out: Result<Seq<char>, ErrorView>,
) -> bool {
    if data.len() % 16 != 0 {
        fails_with(out, invalid_length())
    } else if !keys_usable(password_key, secret_key) {
        fails_with(out, unusable_keys())
    } else {
        exists|opened: Option<Seq<u8>>| #[trigger]
            opens(cipher, password_key, secret_key, data, opened) && out == read_back(opened)
    }
}

/// Bytes that may be missing, as a mathematical value.
pub open spec fn bytes_seen(out: Option<Vec<u8>>) -> Option<Seq<u8>> {
    match out {
        Some(bytes) => Some(bytes@),
        None => None,
    }
}

/// Whether two texts can key the ciphers: the first must have 24 bytes,
/// the second 16 to 32.
pub fn check_keys(password: &str, key: &str) -> (usable: bool)
    ensures
        usable == keys_usable(encode_utf8(password@), encode_utf8(key@)),
{
    let p: usize = password.as_bytes().len();
    let k: usize = key.as_bytes().len();
    p == PASSWORD_KEY_SIZE && MIN_SECRET_KEY_SIZE <= k && k <= MAX_SECRET_KEY_SIZE
}

/// Runs both cipher layers over a buffer of whole blocks.
fn seal_blocks<C: EncryptionService>(
    cipher: &C,
    password: &[u8],
    key: &[u8],
    buffer: &[u8],
) -> (out: Option<Vec<u8>>)
    requires
        keys_usable(password@, key@),
        buffer@.len() % 16 == 0,
    ensures
        seals(cipher, password@, key@, buffer@, bytes_seen(out)),
{
    let stage = cipher.twofish_encrypt(key, buffer);
    assert(outer_seals(cipher, key@, buffer@, stage@));
    if stage.len() != buffer.len() {
        return None;
    }
    let end = cipher.des3_encrypt(password, stage.as_slice());
    assert(inner_seals(cipher, password@, stage@, end@));
    if end.len() != stage.len() {
        None
    } else {
        Some(end)
    }
}

/// Runs both cipher layers backwards over a ciphertext of whole blocks.
fn open_blocks<C: EncryptionService>(
    cipher: &C,
    password: &[u8],
    key: &[u8],
    buffer: &[u8],
) -> (out: Option<Vec<u8>>)
    requires
        keys_usable(password@, key@),
        buffer@.len() % 16 == 0,
    ensures
        opens(cipher, password@, key@, buffer@, bytes_seen(out)),
{
    let stage = cipher.des3_decrypt(password, buffer);
    assert(inner_opens(cipher, password@, buffer@, stage@));
    if stage.len() != buffer.len() {
        return None;
    }
    let end = cipher.twofish_decrypt(key, stage.as_slice());
    assert(outer_opens(cipher, key@, stage@, end@));
    if end.len() != stage.len() {
        None
    } else {
        Some(end)
    }
}

/// Encrypts a text under a pair of keys: the text is filled up with NUL
/// bytes to whole blocks, encrypted with the outer cipher under `key` and
/// the result with the inner cipher under `password`.
pub fn encrypt<C: EncryptionService>(
    cipher: &C,
    password: &str,
    key: &str,
    data: &str,
) -> (out: Result<Vec<u8>, ErrorDetails>)
    requires
        padded_len(data@.len()) <= usize::MAX,
    ensures
        encrypts(cipher, encode_utf8(password@), encode_utf8(key@), data@, bytes_outcome(out)),
        out matches Ok(c) ==> c@.len() == padded_len(data@.len()),
{
    if !check_keys(password, key) {
        return Err(ErrorDetails::of_kind(ErrorType::Nettle, "invalid argument name: key"));
    }
    let buffer = pad_plaintext(data);
    let sealed = seal_blocks(cipher, password.as_bytes(), key.as_bytes(), buffer.as_slice());
    let ghost seen = bytes_seen(sealed);
    assert(seals(cipher, encode_utf8(password@), encode_utf8(key@), padded_buffer(data@), seen));
    match sealed {
        Some(c) => Ok(c),
        None => Err(
            ErrorDetails::of_kind(ErrorType::Nettle, "a cipher did not return whole blocks"),
        ),
    }
}

/// Decrypts a ciphertext under a pair of keys: the inner cipher under
/// `password` is undone, then the outer cipher under `key`; the buffer is
/// read as UTF-8 text and the NUL padding is taken off its end.
pub fn decrypt<C: EncryptionService>(
    cipher: &C,
    password: &str,
    key: &str,
    data: &[u8],
) -> (out: Result<String, ErrorDetails>)
    ensures
        decrypts(cipher, encode_utf8(password@), encode_utf8(key@), data@, text_outcome(out)),
{
    if data.len() % BLOCK_SIZE != 0 {
        return Err(
            ErrorDetails::of_kind(
                ErrorType::InvalidCiphertextLength,
                "invalid data length: not a multiple of the cipher's block size",
            ),
        );
    }
    if !check_keys(password, key) {
        return Err(ErrorDetails::of_kind(ErrorType::Nettle, "invalid argument name: key"));
    }
    let opened = open_blocks(cipher, password.as_bytes(), key.as_bytes(), data);
    let ghost seen = bytes_seen(opened);
    assert(opens(cipher, encode_utf8(password@), encode_utf8(key@), data@, seen));
    match opened {
        Some(buffer) => recover_plaintext(buffer.as_slice()),
        None => Err(
            ErrorDetails::of_kind(ErrorType::Nettle, "a cipher did not return whole blocks"),
        ),
    }
}

/// Whether the two ciphers, under this pair of keys, return the same
/// ciphertext whenever they are given the same blocks.
pub open spec fn layers_deterministic<C: EncryptionService>(
    cipher: &C,
    password_key: Seq<u8>,
    secret_key: Seq<u8>,
) -> bool {
    &&& forall|blocks: Seq<u8>, x: Seq<u8>, y: Seq<u8>|
        #[trigger] outer_seals(cipher, secret_key, blocks, x) && #[trigger] outer_seals(
            cipher,
            secret_key,
            blocks,
            y,
        ) ==> x == y
    &&& forall|blocks: Seq<u8>, x: Seq<u8>, y: Seq<u8>|
        #[trigger] inner_seals(cipher, password_key, blocks, x) && #[trigger] inner_seals(
            cipher,
            password_key,
            blocks,
            y,
        ) ==> x == y
}

/// Whether each of the two ciphers, under this pair of keys, decrypts what
/// it encrypted to the blocks it was given.
pub open spec fn layers_invert<C: EncryptionService>(
    cipher: &C,
    password_key: Seq<u8>,
    secret_key: Seq<u8>,
) -> bool {
    &&& forall|blocks: Seq<u8>, sealed: Seq<u8>, opened: Seq<u8>|
        #[trigger] outer_seals(cipher, secret_key, blocks, sealed) && #[trigger] outer_opens(
            cipher,
            secret_key,
            sealed,
            opened,
        ) ==> opened == blocks
    &&& forall|blocks: Seq<u8>, sealed: Seq<u8>, opened: Seq<u8>|
        #[trigger] inner_seals(cipher, password_key, blocks, sealed) && #[trigger] inner_opens(
            cipher,
            password_key,
            sealed,
            opened,
        ) ==> opened == blocks
}

/// Whether a text of `chars` characters is short enough for this machine
/// to keep its ciphertext as base64 text.
pub open spec fn storable_len(chars: nat) -> bool {
    fits_base64(padded_len(chars))
}

/// Whether a text is short enough for this machine to keep its ciphertext
/// as base64 text.
pub open spec fn storable(text: Seq<char>) -> bool {
    storable_len(text.len())
}

/// Length in bytes that a secret key is brought to before it is sealed.
pub const SECRET_KEY_LENGTH: usize = 32;

/// The text that is sealed as the secret key: the passphrase key itself
/// where it has 32 bytes or more, else the passphrase key brought to 32
/// bytes.
pub open spec fn resized_key(password: Seq<char>) -> Seq<char> {
    if encode_utf8(password).len() < 32 {
        normalized(password, 32)
    } else {
        password
    }
}

/// What sealing the engine's own passphrase key as a secret key may give:
/// nothing where the key is shorter than 32 bytes and may not be resized;
/// else the sealed text of the key, resized where it was shorter.
pub open spec fn seals_own_key<C: EncryptionService>(
    engine: Encryption<C>,
    resize: bool,
    out: Result<Option<Seq<char>>, ErrorView>,
) -> bool {
    if encode_utf8(engine.password()).len() < 32 && !resize {
        gives(out, None)
    } else {
        exists|sealed: Result<Seq<char>, ErrorView>| #[trigger]
            engine.seals(resized_key(engine.password()), sealed) && out == (match sealed {
                Ok(text) => Ok(Some(text)),
                Err(error) => Err(error),
            })
    }
}

/// What opening the stored secret key may give: `AuthenticationFailure`
/// where the stored text is not base64 or does not decrypt to a text, else
/// the text.
pub open spec fn unlocks<C: EncryptionService>(
    cipher: &C,
    password_key: Seq<u8>,
    secret_key: Seq<u8>,
    stored: Seq<char>,
    out: Result<Seq<char>, ErrorView>,
) -> bool {
    match decoded(stored) {
        None => fails_with(out, invalid_password()),
        Some(sealed) => exists|opened: Result<Seq<char>, ErrorView>| #[trigger]
            decrypts(cipher, password_key, secret_key, sealed, opened) && out == (match opened {
                Ok(text) => Ok(text),
                Err(_) => Err(invalid_password()),
            }),
    }
}

/// What sealing a text for the store may give: the base64 text of what
/// `encrypt` returned, or its error.
pub open spec fn seals_text<C: EncryptionService>(
    cipher: &C,
    password_key: Seq<u8>,
    secret_key: Seq<u8>,
    text: Seq<char>,
    out: Result<Seq<char>, ErrorView>,
) -> bool {
    exists|sealed: Result<Seq<u8>, ErrorView>| #[trigger]
        encrypts(cipher, password_key, secret_key, text, sealed) && out == (match sealed {
            Ok(c) => Ok(base64_text(c)),
            Err(error) => Err(error),
        })
}

/// What opening a stored text may give: `InvalidEncoding` where it is not
/// base64, else what `decrypt` returned for its bytes.
pub open spec fn opens_text<C: EncryptionService>(
    cipher: &C,
    password_key: Seq<u8>,
    secret_key: Seq<u8>,
    stored: Seq<char>,
    out: Result<Seq<char>, ErrorView>,
) -> bool {
    match decoded(stored) {
        None => fails_with(out, not_base64()),
        Some(sealed) => decrypts(cipher, password_key, secret_key, sealed, out),
    }
}

/// Encrypts a text under a pair of keys and writes the ciphertext as
/// base64, the form in which the store keeps it.
pub fn seal_text<C: EncryptionService>(
    cipher: &C,
    password: &str,
    key: &str,
    data: &str,
) -> (out: Result<String, ErrorDetails>)
    requires
        storable(data@),
    ensures
        seals_text(cipher, encode_utf8(password@), encode_utf8(key@), data@, text_outcome(out)),
{
    let sealed = encrypt(cipher, password, key, data);
    assert(encrypts(
        cipher,
        encode_utf8(password@),
        encode_utf8(key@),
        data@,
        bytes_outcome(sealed),
    ));
    match sealed {
        Ok(c) => Ok(base64_encode(c.as_slice())),
        Err(e) => Err(e),
    }
}

/// Reads a stored base64 text and decrypts it under a pair of keys.
pub fn open_text<C: EncryptionService>(
    cipher: &C,
    password: &str,
    key: &str,
    stored: &str,
) -> (out: Result<String, ErrorDetails>)
    ensures
        opens_text(cipher, encode_utf8(password@), encode_utf8(key@), stored@, text_outcome(out)),
{
    match decode_text(stored) {
        Ok(sealed) => decrypt(cipher, password, key, sealed.as_slice()),
        Err(e) => Err(e),
    }
}

/// Opens the stored secret key under a pair of keys. That it opens is what
/// authenticates the operator: every failure on the way is an
/// `AuthenticationFailure`.
pub fn unlock_text<C: EncryptionService>(
    cipher: &C,
    password: &str,
    key: &str,
    stored: &str,
) -> (out: Result<String, ErrorDetails>)
    ensures
        unlocks(cipher, encode_utf8(password@), encode_utf8(key@), stored@, text_outcome(out)),
{
    let sealed = match decode_text(stored) {
        Ok(sealed) => sealed,
        Err(_) => {
            return Err(ErrorDetails::of_kind(ErrorType::AuthenticationFailure, "Invalid Password"));
        },
    };
    let opened = decrypt(cipher, password, key, sealed.as_slice());
    assert(decrypts(
        cipher,
        encode_utf8(password@),
        encode_utf8(key@),
        sealed@,
        text_outcome(opened),
    ));
    match opened {
        Ok(text) => Ok(text),
        Err(_) => Err(ErrorDetails::of_kind(ErrorType::AuthenticationFailure, "Invalid Password")),
    }
}

/// The cipher engine with its keys: the passphrase key for the inner
/// cipher and the secret key for the outer one.
pub struct Encryption<C: EncryptionService> {
    password: String,
    key: String,
    cipher: C,
}

impl<C: EncryptionService> Encryption<C> {
    /// The text of the passphrase key.
    pub closed spec fn password(&self) -> Seq<char> {
        self.password@
    }

    /// The text of the secret key.
    pub closed spec fn key(&self) -> Seq<char> {
        self.key@
    }

    /// The block ciphers that the engine runs.
    pub closed spec fn cipher(&self) -> C {
        self.cipher
    }

    /// The bytes that key the inner cipher.
    pub open spec fn password_key(&self) -> Seq<u8> {
        encode_utf8(self.password())
    }

    /// The bytes that key the outer cipher.
    pub open spec fn secret_key(&self) -> Seq<u8> {
        encode_utf8(self.key())
    }

    /// Whether the engine's keys can key the ciphers.
    pub open spec fn usable(&self) -> bool {
        keys_usable(self.password_key(), self.secret_key())
    }

    /// What sealing a text with the engine's keys may give.
    pub open spec fn seals(&self, text: Seq<char>, out: Result<Seq<char>, ErrorView>) -> bool {
        seals_text(&self.cipher(), self.password_key(), self.secret_key(), text, out)
    }

    /// What opening a stored text with the engine's keys may give.
    pub open spec fn opens(&self, stored: Seq<char>, out: Result<Seq<char>, ErrorView>) -> bool {
        opens_text(&self.cipher(), self.password_key(), self.secret_key(), stored, out)
    }

    /// Whether the engine's ciphers return the same for the same.
    pub open spec fn deterministic(&self) -> bool {
        layers_deterministic(&self.cipher(), self.password_key(), self.secret_key())
    }

    /// Whether the engine's ciphers decrypt what they encrypted.
    pub open spec fn inverts(&self) -> bool {
        layers_invert(&self.cipher(), self.password_key(), self.secret_key())
    }

    /// An engine over the given ciphers with the given keys. Keys of the
    /// wrong size are accepted here and refused when they are used.
    pub fn new(password: String, key: String, cipher: C) -> (e: Self)
        ensures
            e.password() == password@,
            e.key() == key@,
            e.cipher() == cipher,
    {
        Encryption { password, key, cipher }
    }

    /// Whether the engine's keys can key the ciphers.
    pub fn is_usable(&self) -> (usable: bool)
        ensures
            usable == self.usable(),
    {
        check_keys(self.password.as_str(), self.key.as_str())
    }

    /// A copy of the passphrase key.
    pub fn password_text(&self) -> (text: String)
        ensures
            text@ == self.password(),
    {
        self.password.clone()
    }

    /// A copy of the secret key.
    pub fn key_text(&self) -> (text: String)
        ensures
            text@ == self.key(),
    {
        self.key.clone()
    }

    /// Encrypts a text under the engine's keys.
    pub fn encrypt(&self, data: String) -> (out: Result<Vec<u8>, ErrorDetails>)
        requires
            padded_len(data@.len()) <= usize::MAX,
        ensures
            encrypts(
                &self.cipher(),
                self.password_key(),
                self.secret_key(),
                data@,
                bytes_outcome(out),
            ),
            out matches Ok(c) ==> c@.len() == padded_len(data@.len()),
    {
        encrypt(&self.cipher, self.password.as_str(), self.key.as_str(), data.as_str())
    }

    /// Decrypts a ciphertext under the engine's keys.
    pub fn decrypt(&self, data: &[u8]) -> (out: Result<String, ErrorDetails>)
        ensures
            decrypts(
                &self.cipher(),
                self.password_key(),
                self.secret_key(),
                data@,
                text_outcome(out),
            ),
    {
        decrypt(&self.cipher, self.password.as_str(), self.key.as_str(), data)
    }

    /// Encrypts a text and writes the ciphertext as base64, the form in
    /// which the store keeps it.
    pub fn seal_text(&self, data: &str) -> (out: Result<String, ErrorDetails>)
        requires
            storable(data@),
        ensures
            self.seals(data@, text_outcome(out)),
    {
        seal_text(&self.cipher, self.password.as_str(), self.key.as_str(), data)
    }

    /// Reads a stored base64 text and decrypts it.
    pub fn open_text(&self, stored: &str) -> (out: Result<String, ErrorDetails>)
        ensures
            self.opens(stored@, text_outcome(out)),
    {
        open_text(&self.cipher, self.password.as_str(), self.key.as_str(), stored)
    }

    /// Opens the stored secret key with the engine's keys. Every failure
    /// on the way is an `AuthenticationFailure`.
    pub fn decrypt_secret_key(&self, secret_key: String) -> (out: Result<String, ErrorDetails>)
        ensures
            unlocks(
                &self.cipher(),
                self.password_key(),
                self.secret_key(),
                secret_key@,
                text_outcome(out),
            ),
    {
        unlock_text(&self.cipher, self.password.as_str(), self.key.as_str(), secret_key.as_str())
    }

    /// Whether an entry of the operator repeats the passphrase key, as is
    /// asked before the key is sealed as a secret key.
    pub fn confirms(&self, entry: &str) -> (same: bool)
        ensures
            same == (entry@ == self.password()),
    {
        self.password == entry.to_owned()
    }

    /// Seals the engine's own passphrase key as a secret key: a key
    /// shorter than 32 bytes is brought to 32 bytes first where `resize`
    /// allows, and nothing is sealed where it does not.
    pub fn encrypt_secret_key(&self, resize: bool) -> (out: Result<Option<String>, ErrorDetails>)
        requires
            resize && encode_utf8(self.password()).len() < 32 ==> normalizable(
                self.password(),
                32,
            ),
            encode_utf8(self.password()).len() >= 32 ==> storable(self.password()),
        ensures
            seals_own_key(*self, resize, optional_text_outcome(out)),
    {
        let sealed = if self.password.as_str().as_bytes().len() < SECRET_KEY_LENGTH {
            if !resize {
                return Ok(None);
            }
            let key = adjust_password_length(self.password.as_str(), SECRET_KEY_LENGTH);
            proof {
                lemma_normalized_chars(self.password(), 32);
            }
            self.seal_text(key.as_str())
        } else {
            self.seal_text(self.password.as_str())
        };
        assert(self.seals(resized_key(self.password()), text_outcome(sealed)));
        match sealed {
            Ok(text) => Ok(Some(text)),
            Err(e) => Err(e),
        }
    }

    /// The block ciphers that the engine runs.
    pub fn cipher_ref(&self) -> (cipher: &C)
        ensures
            *cipher == self.cipher(),
    {
        &self.cipher
    }

    /// Replaces both keys, as is done once the operator is authenticated.
    pub fn set_keys(&mut self, password: String, key: String)
        ensures
            final(self).password() == password@,
            final(self).key() == key@,
            final(self).cipher() == old(self).cipher(),
    {
        self.password = password;
        self.key = key;
    }
}

} // verus!
