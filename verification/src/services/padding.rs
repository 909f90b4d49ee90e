//! The plaintext side of the cipher engine: how a text becomes a buffer of
//! whole cipher blocks, and how such a buffer becomes a text again.

use vstd::prelude::*;
use vstd::slice::slice_index_get;
use vstd::string::StrSliceExecFns;
use vstd::utf8::*;

use crate::models::enums::ErrorType;
use crate::models::error::{gives, not_text, ok_or, text_outcome, ErrorDetails};
use crate::utils::text::{lemma_ascii_bytes_are_text, lemma_text_of_encoding, text_from_utf8};

verus! {

/// Block size of the outer cipher, in bytes. Every ciphertext of the
/// engine is a whole number of such blocks.
pub const BLOCK_SIZE: usize = 16;

/// Block size of the inner cipher, in bytes.
pub const INNER_BLOCK_SIZE: usize = 8;

/// The length of the buffer that holds a text of `chars` characters: the
/// smallest whole number of blocks that is at least `chars` bytes long and
/// at least one block.
pub open spec fn padded_len(chars: nat) -> nat {
    if chars == 0 {
        16
    } else if chars % 16 == 0 {
        chars
    } else {
        (chars - chars % 16 + 16) as nat
    }
}

/// The buffer that is encrypted for a text: the text's bytes, filled up on
/// the right with NUL bytes to `padded_len` of its character count. Bytes
/// beyond that length are not part of the buffer.
pub open spec fn padded_buffer(text: Seq<char>) -> Seq<u8> {
    let bytes = encode_utf8(text);
    Seq::new(
        padded_len(text.len()),
        |i: int|
            if i < bytes.len() {
                bytes[i]
            } else {
                0u8
            },
    )
}

/// A buffer without its trailing NUL bytes.
pub open spec fn stripped(buffer: Seq<u8>) -> Seq<u8>
    decreases buffer.len(),
{
    if buffer.len() > 0 && buffer.last() == 0 {
        stripped(buffer.drop_last())
    } else {
        buffer
    }
}

/// The text that a decrypted buffer holds: none where the buffer is not
/// valid UTF-8, else the text without the NUL padding at its end.
pub open spec fn recovered(buffer: Seq<u8>) -> Option<Seq<char>> {
    if valid_utf8(buffer) {
        Some(decode_utf8(stripped(buffer)))
    } else {
        None
    }
}

/// `padded_len` is a positive whole number of blocks that holds the text.
pub proof fn lemma_padded_len_holds(chars: nat)
    ensures
        padded_len(chars) % 16 == 0,
        padded_len(chars) >= chars,
        padded_len(chars) >= 16,
        padded_len(chars) < chars + 16 || chars == 0,
{
}

/// No positive whole number of blocks that holds the text is smaller than
/// `padded_len`.
pub proof fn lemma_padded_len_is_least(chars: nat, m: nat)
    requires
        m % 16 == 0,
        m >= chars,
        m > 0,
    ensures
        padded_len(chars) <= m,
{
    if chars != 0 && chars % 16 != 0 {
        assert((chars - chars % 16) % 16 == 0);
    }
}

/// Fills a text up to whole cipher blocks.
pub fn pad_plaintext(data: &str) -> (buffer: Vec<u8>)
    requires
        padded_len(data@.len()) <= usize::MAX,
    ensures
        buffer@ == padded_buffer(data@),
{
    let count: usize = data.unicode_len();
    let rest: usize = count % BLOCK_SIZE;
    let size: usize = if count == 0 {
        BLOCK_SIZE
    } else if rest == 0 {
        count
    } else {
        count - rest + BLOCK_SIZE
    };
    let bytes = data.as_bytes();
    let held: usize = bytes.len();
    let mut buffer: Vec<u8> = Vec::new();
    let mut i: usize = 0;
    while i < size
        invariant
            i <= size,
            held == bytes@.len(),
            bytes@ == encode_utf8(data@),
            buffer@.len() == i,
            forall|j: int|
                0 <= j < i ==> buffer@[j] == (if j < bytes@.len() {
                    bytes@[j]
                } else {
                    0u8
                }),
        decreases size - i,
    {
        if i < held {
            buffer.push(*slice_index_get(bytes, i));
        } else {
            buffer.push(0u8);
        }
        i = i + 1;
    }
    assert(buffer@ =~= padded_buffer(data@));
    buffer
}

/// One NUL byte at the end of a buffer does not change whether the buffer
/// is valid UTF-8.
proof fn lemma_trailing_nul_validity(buffer: Seq<u8>)
    requires
        buffer.len() > 0,
        buffer.last() == 0,
    ensures
        valid_utf8(buffer) <==> valid_utf8(buffer.drop_last()),
{
    let front = buffer.drop_last();
    let nul = seq![0u8];
    assert(buffer =~= front + nul);
    lemma_ascii_bytes_are_text(nul);
    if valid_utf8(front) {
        valid_utf8_concat(front, nul);
    }
    if valid_utf8(buffer) {
        let at: int = buffer.len() - 1;
        is_char_boundary_iff_not_is_continuation_byte(buffer, at);
        assert(!is_continuation_byte(buffer[at]));
        valid_utf8_split(buffer, at);
        assert(buffer.subrange(0, at) =~= front);
    }
}

/// The NUL bytes at the end of a buffer do not change whether the buffer
/// is valid UTF-8.
pub proof fn lemma_stripped_validity(buffer: Seq<u8>)
    ensures
        valid_utf8(buffer) <==> valid_utf8(stripped(buffer)),
    decreases buffer.len(),
{
    if buffer.len() > 0 && buffer.last() == 0 {
        lemma_trailing_nul_validity(buffer);
        lemma_stripped_validity(buffer.drop_last());
    }
}

/// What is left of a buffer once the part from `end` on, all of NUL bytes,
/// with a byte before it that is not NUL, is taken away.
proof fn lemma_stripped_prefix(buffer: Seq<u8>, end: int)
    requires
        0 <= end <= buffer.len(),
        forall|j: int| end <= j < buffer.len() ==> buffer[j] == 0,
        end > 0 ==> buffer[end - 1] != 0,
    ensures
        stripped(buffer) == buffer.subrange(0, end),
    decreases buffer.len() - end,
{
    if end == buffer.len() {
        assert(buffer.subrange(0, end) =~= buffer);
    } else {
        let front = buffer.drop_last();
        lemma_stripped_prefix(front, end);
        assert(front.subrange(0, end) =~= buffer.subrange(0, end));
    }
}

/// The encoding of a scalar value ends in a NUL byte only for NUL itself.
proof fn lemma_scalar_last_byte(c: u32)
    requires
        is_scalar(c),
    ensures
        encode_scalar(c).len() > 0,
        encode_scalar(c).last() == 0 <==> c == 0,
{
    if has_width_1_encoding(c) {
        assert(((c & 0x7F) as u8 == 0) <==> c == 0) by (bit_vector)
            requires
                c <= 0x7F,
        ;
    } else {
        assert((0x80u8 | (c & 0x3F) as u8) != 0) by (bit_vector);
    }
}

/// The encoding of a text ends in a NUL byte exactly when the text ends in
/// a NUL character.
pub proof fn lemma_last_byte(text: Seq<char>)
    requires
        text.len() > 0,
    ensures
        encode_utf8(text).len() > 0,
        encode_utf8(text).last() == 0 <==> text.last() == '\0',
    decreases text.len(),
{
    let head = encode_scalar(text[0] as u32);
    let tail = text.drop_first();
    char_is_scalar(text[0]);
    lemma_scalar_last_byte(text[0] as u32);
    if tail.len() == 0 {
        assert(encode_utf8(tail) =~= Seq::<u8>::empty());
        assert(encode_utf8(text) =~= head);
        assert(text.last() == text[0]);
        if text[0] as u32 == 0 {
            char_u32_cast(text[0], 0u32);
        }
    } else {
        lemma_last_byte(tail);
        assert(encode_utf8(text).last() == encode_utf8(tail).last());
        assert(text.last() == tail.last());
    }
}

/// Whether padding and recovering gives a text back: its bytes must fit
/// the buffer, which is sized by its characters, and it must not end in
/// NUL, which would be taken for padding.
pub open spec fn survives_padding(text: Seq<char>) -> bool {
    &&& encode_utf8(text).len() <= padded_len(text.len())
    &&& text.len() > 0 ==> text.last() != '\0'
}

/// A text that fits its buffer and does not end in NUL is recovered
/// unchanged from its padded buffer.
pub proof fn lemma_pad_then_recover(text: Seq<char>)
    requires
        survives_padding(text),
    ensures
        recovered(padded_buffer(text)) == Some(text),
{
    let bytes = encode_utf8(text);
    let buffer = padded_buffer(text);
    if text.len() > 0 {
        lemma_last_byte(text);
    } else {
        assert(bytes =~= Seq::<u8>::empty());
    }
    lemma_stripped_prefix(buffer, bytes.len() as int);
    assert(buffer.subrange(0, bytes.len() as int) =~= bytes);
    lemma_stripped_validity(buffer);
    encode_utf8_valid_utf8(text);
    encode_utf8_decode_utf8(text);
}

/// A text of ASCII characters that does not end in NUL is recovered
/// unchanged from its padded buffer.
pub proof fn lemma_ascii_survives(text: Seq<char>)
    requires
        is_ascii_chars(text),
        text.len() > 0 ==> text.last() != '\0',
    ensures
        survives_padding(text),
        recovered(padded_buffer(text)) == Some(text),
{
    lemma_ascii_fits(text);
    lemma_pad_then_recover(text);
}

/// A text of ASCII characters always fits its buffer.
pub proof fn lemma_ascii_fits(text: Seq<char>)
    requires
        is_ascii_chars(text),
    ensures
        encode_utf8(text).len() <= padded_len(text.len()),
{
    is_ascii_chars_encode_utf8(text);
}

/// Reads a decrypted buffer as text and takes the NUL padding off its end.
/// Fails where the buffer is not valid UTF-8.
pub fn recover_plaintext(buffer: &[u8]) -> (out: Result<String, ErrorDetails>)
    ensures
        text_outcome(out) == ok_or(recovered(buffer@), not_text()),
{
    let mut end: usize = buffer.len();
    while end > 0 && *slice_index_get(buffer, end - 1) == 0u8
        invariant
            end <= buffer@.len(),
            forall|j: int| end <= j < buffer@.len() ==> buffer@[j] == 0,
        decreases end,
    {
        end = end - 1;
    }
    let mut text: Vec<u8> = Vec::new();
    let mut i: usize = 0;
    while i < end
        invariant
            i <= end <= buffer@.len(),
            text@ == buffer@.subrange(0, i as int),
        decreases end - i,
    {
        text.push(*slice_index_get(buffer, i));
        i = i + 1;
        assert(text@ =~= buffer@.subrange(0, i as int));
    }
    proof {
        lemma_stripped_prefix(buffer@, end as int);
        lemma_stripped_validity(buffer@);
    }
    match text_from_utf8(text) {
        Some(s) => {
            proof {
                lemma_text_of_encoding(s@, stripped(buffer@));
            }
            Ok(s)
        },
        None => Err(
            ErrorDetails::of_kind(ErrorType::InvalidEncoding, "decrypted data is not valid UTF-8"),
        ),
    }
}

} // verus!
