//! What holds of the cipher engine for every pair of block ciphers that
//! behave as ciphers do.

use vstd::prelude::*;

use crate::models::error::{broken_blocks, fails_with, gives, invalid_length, ErrorView};
use crate::services::encryption::{
    decrypts,
    encrypts,
    keys_usable,
    layers_deterministic,
    layers_invert,
    opens_text,
    seals,
    seals_text,
    EncryptionService,
};
use crate::services::padding::{
    lemma_pad_then_recover,
    lemma_padded_len_holds,
    padded_buffer,
    padded_len,
    survives_padding,
};
use crate::utils::encoding::{base64_text, codec_inverts, decoded};

verus! {

/// Encryption adds no randomness of its own: with ciphers that return the
/// same for the same, encrypting a text twice under the same keys gives
/// the same outcome. The store relies on this to find a record by the
/// ciphertext of its name.
pub proof fn lemma_encrypt_deterministic<C: EncryptionService>(
    cipher: &C,
    password_key: Seq<u8>,
    secret_key: Seq<u8>,
    text: Seq<char>,
    first: Result<Seq<u8>, ErrorView>,
    second: Result<Seq<u8>, ErrorView>,
)
    requires
        layers_deterministic(cipher, password_key, secret_key),
        encrypts(cipher, password_key, secret_key, text, first),
        encrypts(cipher, password_key, secret_key, text, second),
    ensures
        first == second,
{
    if keys_usable(password_key, secret_key) {
        let buffer = padded_buffer(text);
        let a = choose|a: Option<Seq<u8>>| #[trigger]
            seals(cipher, password_key, secret_key, buffer, a) && first == (match a {
                Some(c) => Ok(c),
                None => Err(broken_blocks()),
            });
        let b = choose|b: Option<Seq<u8>>| #[trigger]
            seals(cipher, password_key, secret_key, buffer, b) && second == (match b {
                Some(c) => Ok(c),
                None => Err(broken_blocks()),
            });
        lemma_seals_deterministic(cipher, password_key, secret_key, buffer, a, b);
    }
}

/// With ciphers that return the same for the same, both layers together
/// do so too.
pub proof fn lemma_seals_deterministic<C: EncryptionService>(
    cipher: &C,
    password_key: Seq<u8>,
    secret_key: Seq<u8>,
    buffer: Seq<u8>,
    first: Option<Seq<u8>>,
    second: Option<Seq<u8>>,
)
    requires
        layers_deterministic(cipher, password_key, secret_key),
        seals(cipher, password_key, secret_key, buffer, first),
        seals(cipher, password_key, secret_key, buffer, second),
    ensures
        first == second,
{
}

/// Decryption undoes encryption: with ciphers that decrypt what they
/// encrypted, a text that fits its buffer and does not end in NUL comes
/// back unchanged from its ciphertext under the same keys.
pub proof fn lemma_round_trip<C: EncryptionService>(
    cipher: &C,
    password_key: Seq<u8>,
    secret_key: Seq<u8>,
    text: Seq<char>,
    sealed: Seq<u8>,
    out: Result<Seq<char>, ErrorView>,
)
    requires
        layers_invert(cipher, password_key, secret_key),
        survives_padding(text),
        encrypts(cipher, password_key, secret_key, text, Ok(sealed)),
        decrypts(cipher, password_key, secret_key, sealed, out),
    ensures
        gives(out, text),
{
    lemma_padded_len_holds(text.len());
    lemma_pad_then_recover(text);
}

/// A ciphertext that is not a whole number of blocks is refused with
/// `InvalidCiphertextLength`, whatever the keys and the ciphers.
pub proof fn lemma_length_validated<C: EncryptionService>(
    cipher: &C,
    password_key: Seq<u8>,
    secret_key: Seq<u8>,
    data: Seq<u8>,
    out: Result<Seq<char>, ErrorView>,
)
    requires
        data.len() % 16 != 0,
        decrypts(cipher, password_key, secret_key, data, out),
    ensures
        fails_with(out, invalid_length()),
{
}

/// With ciphers that return the same for the same, sealing a text twice
/// under the same keys gives the same outcome.
pub proof fn lemma_seals_text_deterministic<C: EncryptionService>(
    cipher: &C,
    password_key: Seq<u8>,
    secret_key: Seq<u8>,
    text: Seq<char>,
    first: Result<Seq<char>, ErrorView>,
    second: Result<Seq<char>, ErrorView>,
)
    requires
        layers_deterministic(cipher, password_key, secret_key),
        seals_text(cipher, password_key, secret_key, text, first),
        seals_text(cipher, password_key, secret_key, text, second),
    ensures
        first == second,
{
    let a = choose|a: Result<Seq<u8>, ErrorView>| #[trigger]
        encrypts(cipher, password_key, secret_key, text, a) && first == (match a {
            Ok(c) => Ok(base64_text(c)),
            Err(error) => Err(error),
        });
    let b = choose|b: Result<Seq<u8>, ErrorView>| #[trigger]
        encrypts(cipher, password_key, secret_key, text, b) && second == (match b {
            Ok(c) => Ok(base64_text(c)),
            Err(error) => Err(error),
        });
    lemma_encrypt_deterministic(cipher, password_key, secret_key, text, a, b);
}

/// A ciphertext is as long as the padded buffer of its text.
pub proof fn lemma_ciphertext_length<C: EncryptionService>(
    cipher: &C,
    password_key: Seq<u8>,
    secret_key: Seq<u8>,
    text: Seq<char>,
    sealed: Seq<u8>,
)
    requires
        encrypts(cipher, password_key, secret_key, text, Ok(sealed)),
    ensures
        sealed.len() == padded_len(text.len()),
{
}

/// With ciphers that decrypt what they encrypted and a codec that reads
/// what it wrote for ciphertexts of the text's padded length, a text that
/// survives padding is opened unchanged from what it was sealed to.
pub proof fn lemma_open_after_seal<C: EncryptionService>(
    cipher: &C,
    password_key: Seq<u8>,
    secret_key: Seq<u8>,
    text: Seq<char>,
    sealed: Seq<char>,
    out: Result<Seq<char>, ErrorView>,
)
    requires
        layers_invert(cipher, password_key, secret_key),
        codec_inverts(padded_len(text.len())),
        survives_padding(text),
        seals_text(cipher, password_key, secret_key, text, Ok(sealed)),
        opens_text(cipher, password_key, secret_key, sealed, out),
    ensures
        gives(out, text),
{
    let c = choose|c: Result<Seq<u8>, ErrorView>| #[trigger]
        encrypts(cipher, password_key, secret_key, text, c) && Ok::<Seq<char>, ErrorView>(sealed)
            == (match c {
            Ok(bytes) => Ok(base64_text(bytes)),
            Err(error) => Err(error),
        });
    let bytes = c->Ok_0;
    lemma_ciphertext_length(cipher, password_key, secret_key, text, bytes);
    assert(decoded(base64_text(bytes)) == Some(bytes));
    lemma_round_trip(cipher, password_key, secret_key, text, bytes, out);
}

} // verus!
