use vstd::prelude::*;
use vstd::slice::slice_index_get;
use vstd::utf8::*;

use crate::models::error::made;
use crate::utils::text::{
    ascii_text,
    lemma_ascii_bytes_are_text,
    lemma_text_of_encoding,
    text_from_utf8,
};

verus! {

/// The first `length` bytes of `bytes` repeated without end.
pub open spec fn cycled(bytes: Seq<u8>, length: nat) -> Seq<u8>
    recommends
        bytes.len() > 0 || length == 0,
{
    Seq::new(length, |i: int| bytes[i % (bytes.len() as int)])
}

/// Whether a passphrase can be brought to `length` bytes: it must not be
/// empty (unless nothing is asked for), and the cut must not fall inside a
/// character.
pub open spec fn normalizable(input: Seq<char>, length: nat) -> bool {
    &&& encode_utf8(input).len() > 0 || length == 0
    &&& valid_utf8(cycled(encode_utf8(input), length))
}

/// The passphrase brought to exactly `length` bytes: cut off where it is
/// longer, repeated from its start where it is shorter.
pub open spec fn normalized(input: Seq<char>, length: nat) -> Seq<char> {
    decode_utf8(cycled(encode_utf8(input), length))
}

/// Whether bringing the passphrase to `length` bytes cuts part of it off,
/// which the caller may want to tell the operator.
pub fn exceeds_length(input_password: &str, length: usize) -> (longer: bool)
    ensures
        longer == (encode_utf8(input_password@).len() > length),
{
    input_password.as_bytes().len() > length
}

/// Brings a passphrase to exactly `length` bytes where that can be done,
/// and says `None` where it cannot.
pub fn try_adjust_password_length(input_password: &str, length: usize) -> (out: Option<String>)
    ensures
        out is Some <==> normalizable(input_password@, length as nat),
        out matches Some(s) ==> s@ == normalized(input_password@, length as nat),
{
    let bytes = input_password.as_bytes();
    let n: usize = bytes.len();
    if n == 0 && length > 0 {
        return None;
    }
    let mut adjusted: Vec<u8> = Vec::new();
    let mut i: usize = 0;
    while i < length
        invariant
            i <= length,
            n == bytes@.len(),
            n > 0 || length == 0,
            adjusted@.len() == i,
            forall|j: int| 0 <= j < i ==> adjusted@[j] == bytes@[j % (n as int)],
        decreases length - i,
    {
        adjusted.push(*slice_index_get(bytes, i % n));
        i = i + 1;
    }
    assert(adjusted@ =~= cycled(bytes@, length as nat));
    match text_from_utf8(adjusted) {
        Some(s) => {
            proof {
                lemma_text_of_encoding(s@, cycled(bytes@, length as nat));
            }
            Some(s)
        },
        None => None,
    }
}

/// As a security measure and because of the ciphers' fixed key sizes, a
/// passphrase is brought to an exact length in bytes: a longer one is cut
/// to its first `length` bytes, a shorter one is repeated from its start
/// until `length` bytes are reached.
pub fn adjust_password_length(input_password: &str, length: usize) -> (out: String)
    requires
        normalizable(input_password@, length as nat),
    ensures
        out@ == normalized(input_password@, length as nat),
{
    match try_adjust_password_length(input_password, length) {
        Some(s) => s,
        None => String::new(),
    }
}

/// A passphrase that already has the asked length in bytes is returned
/// unchanged.
pub proof fn lemma_exact_length_unchanged(input: Seq<char>)
    ensures
        normalizable(input, encode_utf8(input).len()),
        normalized(input, encode_utf8(input).len()) == input,
{
    let bytes = encode_utf8(input);
    assert forall|i: int| 0 <= i < bytes.len() implies #[trigger] cycled(bytes, bytes.len())[i]
        == bytes[i] by {
        vstd::arithmetic::div_mod::lemma_small_mod(i as nat, bytes.len());
    }
    assert(cycled(bytes, bytes.len()) =~= bytes);
    encode_utf8_valid_utf8(input);
    encode_utf8_decode_utf8(input);
}

/// A passphrase brought to `length` bytes has at most `length`
/// characters.
pub proof fn lemma_normalized_chars(input: Seq<char>, length: nat)
    requires
        normalizable(input, length),
    ensures
        normalized(input, length).len() <= length,
        encode_utf8(normalized(input, length)).len() == length,
{
    let cut = cycled(encode_utf8(input), length);
    decode_utf8_encode_utf8(cut);
    lemma_chars_at_most_bytes(normalized(input, length));
}

/// A text has at most as many characters as its encoding has bytes.
pub proof fn lemma_chars_at_most_bytes(text: Seq<char>)
    ensures
        text.len() <= encode_utf8(text).len(),
    decreases text.len(),
{
    if text.len() > 0 {
        lemma_chars_at_most_bytes(text.drop_first());
    }
}

/// A passphrase of ASCII characters can always be brought to any length,
/// unless it is empty and a positive length is asked for.
pub proof fn lemma_ascii_normalizable(input: Seq<char>, length: nat)
    requires
        is_ascii_chars(input),
        input.len() > 0 || length == 0,
    ensures
        normalizable(input, length),
        normalized(input, length) == Seq::new(length, |i: int| input[i % (input.len() as int)]),
{
    let bytes = encode_utf8(input);
    is_ascii_chars_encode_utf8(input);
    let cut = cycled(bytes, length);
    assert forall|i: int| 0 <= i < cut.len() implies cut[i] < 0x80 by {
        let k: int = i % (bytes.len() as int);
        assert(0 <= k < bytes.len());
        assert(input[k] as u8 == bytes[k]);
    }
    lemma_ascii_bytes_are_text(cut);
    assert forall|i: int| 0 <= i < length implies ascii_text(cut)[i] == input[i % (
    input.len() as int)] by {
        let k: int = i % (bytes.len() as int);
        assert(0 <= k < bytes.len());
        assert(input[k] as u8 == bytes[k]);
    }
    assert(ascii_text(cut) =~= Seq::new(length, |i: int| input[i % (input.len() as int)]));
}

/// `rand::random` for `u32`, drawn from the thread's generator. Nothing is
/// promised of the value. The call fails only where the system's source of
/// entropy cannot be opened, which no caller can rule out.
#[verifier::external_body]
pub(crate) fn random_draw() -> u32 {
    rand::random::<u32>()
}

/// The characters a generated secret is made of: printable ASCII without
/// the apostrophe, which would end a quoted literal in a naive SQL command.
pub open spec fn is_secret_char(c: char) -> bool {
    &&& ' ' <= c <= '~'
    &&& c != '\''
}

/// The byte of the secret character that a draw selects: the draw's
/// remainder by 94 counts through the allowed characters in ASCII order.
pub open spec fn secret_byte(draw: u32) -> u8 {
    let k: u32 = draw % 94;
    if k < 7 {
        (0x20 + k) as u8
    } else {
        (0x21 + k) as u8
    }
}

/// The secret that a sequence of draws selects, one character per draw.
pub open spec fn secret_of(draws: Seq<u32>) -> Seq<char> {
    Seq::new(draws.len(), |i: int| secret_byte(draws[i]) as char)
}

/// Every draw selects an allowed character.
pub proof fn lemma_secret_chars_allowed(draws: Seq<u32>)
    ensures
        secret_of(draws).len() == draws.len(),
        forall|i: int| 0 <= i < draws.len() ==> is_secret_char(#[trigger] secret_of(draws)[i]),
{
    assert forall|i: int| 0 <= i < draws.len() implies is_secret_char(
        #[trigger] secret_of(draws)[i],
    ) by {
        let b: u8 = secret_byte(draws[i]);
        assert(0x20 <= b <= 0x7e && b != 0x27);
    }
}

/// Builds the secret that the given draws select.
pub fn secret_from_draws(draws: &[u32]) -> (out: String)
    ensures
        out@ == secret_of(draws@),
{
    let n: usize = draws.len();
    let mut bytes: Vec<u8> = Vec::new();
    let mut i: usize = 0;
    while i < n
        invariant
            i <= n,
            n == draws@.len(),
            bytes@.len() == i,
            forall|j: int| 0 <= j < i ==> bytes@[j] == secret_byte(draws@[j]),
        decreases n - i,
    {
        let k: u32 = *slice_index_get(draws, i) % 94;
        let b: u8 = if k < 7 {
            (0x20 + k) as u8
        } else {
            (0x21 + k) as u8
        };
        bytes.push(b);
        i = i + 1;
    }
    let ghost held = bytes@;
    proof {
        assert forall|j: int| 0 <= j < held.len() implies held[j] < 0x80 by {
            assert(held[j] == secret_byte(draws@[j]));
        }
        lemma_ascii_bytes_are_text(held);
        assert(ascii_text(held) =~= secret_of(draws@));
    }
    match text_from_utf8(bytes) {
        Some(s) => {
            proof {
                lemma_text_of_encoding(s@, held);
            }
            s
        },
        None => String::new(),
    }
}

/// Returns a random sequence of `size` characters, each printable and none
/// an apostrophe: the secret that `size` random draws select.
pub fn rand_string(size: usize) -> (out: String)
    ensures
        out@.len() == size,
        forall|i: int| 0 <= i < size ==> is_secret_char(#[trigger] out@[i]),
        exists|draws: Seq<u32>| draws.len() == size && out@ == #[trigger] secret_of(draws),
{
    let mut draws: Vec<u32> = Vec::new();
    while draws.len() < size
        invariant
            draws@.len() <= size,
        decreases size - draws@.len(),
    {
        draws.push(random_draw());
    }
    proof {
        lemma_secret_chars_allowed(draws@);
    }
    let out = secret_from_draws(draws.as_slice());
    assert(out@ == secret_of(draws@));
    out
}

} // verus!
