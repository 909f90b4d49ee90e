//! Base64, the textual form in which ciphertext is kept in the store.

use vstd::prelude::*;
use vstd::utf8::*;

use crate::models::enums::ErrorType;
use crate::services::padding::{lemma_ascii_fits, survives_padding};
use crate::models::error::{bytes_outcome, gives, not_base64, ok_or, ErrorDetails};

verus! {

/// The error of `base64::decode`.
#[verifier::external_type_specification]
#[verifier::external_body]
pub struct ExDecodeError(base64::DecodeError);

/// The standard base64 text of a sequence of bytes, as `base64::encode`
/// writes it.
pub uninterp spec fn base64_text(bytes: Seq<u8>) -> Seq<char>;

/// The bytes that a base64 text, given by its own bytes, stands for, as
/// `base64::decode` reads them; none where the text is not base64.
pub uninterp spec fn base64_bytes(text: Seq<u8>) -> Option<Seq<u8>>;

/// Whether the base64 text of `len` bytes has a length that fits in
/// `usize`.
pub open spec fn fits_base64(len: nat) -> bool {
    (len / 3 + 1) * 4 <= usize::MAX
}

/// The length of the standard base64 text of `len` bytes: four characters
/// for every three bytes or part of three.
pub open spec fn base64_len(len: nat) -> nat {
    (len + 2) / 3 * 4
}

/// The characters of standard base64 text: letters, digits, `+`, `/` and
/// the pad character `=`.
pub open spec fn is_base64_char(c: char) -> bool {
    ||| 'A' <= c <= 'Z'
    ||| 'a' <= c <= 'z'
    ||| '0' <= c <= '9'
    ||| c == '+'
    ||| c == '/'
    ||| c == '='
}

/// Whether a text is made of the characters of standard base64 text.
pub open spec fn is_base64_text(text: Seq<char>) -> bool {
    forall|i: int| 0 <= i < text.len() ==> is_base64_char(#[trigger] text[i])
}

/// Whether a base64 text is short enough to be decoded on this machine:
/// the decoder rounds its length up to whole chunks of eight.
pub open spec fn decodable_len(len: nat) -> bool {
    len + 7 <= usize::MAX
}

/// `base64::encode`: the result is the standard base64 text of the bytes,
/// which has four characters for every three bytes or part of three and
/// is made of the standard alphabet and the pad character. The call panics
/// where the text's length overflows `usize`, which the `requires` leaves
/// out.
#[verifier::external_body]
pub(crate) fn base64_encode(bytes: &[u8]) -> (text: String)
    requires
        fits_base64(bytes@.len()),
    ensures
        text@ == base64_text(bytes@),
        text@.len() == base64_len(bytes@.len()),
        is_base64_text(text@),
{
    base64::encode(bytes)
}

/// `base64::decode`: the result is what the text stands for, and an error
/// exactly where it stands for nothing. The call panics where the text's
/// length plus seven overflows `usize`, which the `requires` leaves out.
#[verifier::external_body]
pub(crate) fn base64_decode(text: &[u8]) -> (out: Result<Vec<u8>, base64::DecodeError>)
    requires
        decodable_len(text@.len()),
    ensures
        out is Ok <==> base64_bytes(text@) is Some,
        out matches Ok(bytes) ==> base64_bytes(text@) == Some(bytes@),
{
    base64::decode(text)
}

/// The bytes that a base64 text, given by its own bytes, stands for; none
/// where it is not base64 or is too long to be decoded on this machine.
pub open spec fn decoded_bytes(text: Seq<u8>) -> Option<Seq<u8>> {
    if decodable_len(text.len()) {
        base64_bytes(text)
    } else {
        None
    }
}

/// The bytes that a stored text stands for; none where it is not base64 or
/// is too long to be decoded on this machine.
pub open spec fn decoded(text: Seq<char>) -> Option<Seq<u8>> {
    decoded_bytes(encode_utf8(text))
}

/// Whether reading base64 gives back the bytes it was written for, for
/// every sequence of up to `limit` bytes. This is expected of the codec
/// and taken as given by the laws that speak of what is stored and read
/// again, each for the lengths it deals with.
pub open spec fn codec_inverts(limit: nat) -> bool {
    forall|bytes: Seq<u8>|
        bytes.len() <= limit ==> decoded(#[trigger] base64_text(bytes)) == Some(bytes)
}

/// A base64 text is recovered unchanged from its padded buffer: it is
/// ASCII, so it fits, and it holds no NUL.
pub proof fn lemma_base64_text_survives(text: Seq<char>)
    requires
        is_base64_text(text),
    ensures
        survives_padding(text),
{
    assert(is_ascii_chars(text)) by {
        assert forall|i: int| 0 <= i < text.len() implies '\0' <= #[trigger] text[i]
            <= '\u{7f}' by {
            assert(is_base64_char(text[i]));
        }
    }
    lemma_ascii_fits(text);
    if text.len() > 0 {
        assert(is_base64_char(text[text.len() - 1]));
    }
}

/// Reads base64 text back into bytes. Fails where the text is not base64.
pub fn decode_text(text: &str) -> (out: Result<Vec<u8>, ErrorDetails>)
    ensures
        bytes_outcome(out) == ok_or(decoded(text@), not_base64()),
{
    decode_bytes(text.as_bytes())
}

/// Reads base64 text, given by its bytes, back into bytes.
pub fn decode_bytes(text: &[u8]) -> (out: Result<Vec<u8>, ErrorDetails>)
    ensures
        bytes_outcome(out) == ok_or(decoded_bytes(text@), not_base64()),
{
    if text.len() > usize::MAX - 7 {
        return Err(ErrorDetails::of_kind(ErrorType::InvalidEncoding, "text is not base64"));
    }
    match base64_decode(text) {
        Ok(bytes) => Ok(bytes),
        Err(_) => Err(ErrorDetails::of_kind(ErrorType::InvalidEncoding, "text is not base64")),
    }
}

} // verus!
