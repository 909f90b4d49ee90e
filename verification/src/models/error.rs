use vstd::prelude::*;

use crate::models::enums::ErrorType;

verus! {

/// An error of the vault: its cause, and where known a code and a message.
#[derive(Debug)]
pub struct ErrorDetails {
    message: Option<String>,
    err_type: ErrorType,
    code: Option<isize>,
}

/// An error as mathematical values: its cause, its code and its message.
pub struct ErrorView {
    pub kind: ErrorType,
    pub code: Option<isize>,
    pub message: Option<Seq<char>>,
}

impl View for ErrorDetails {
    type V = ErrorView;

    open spec fn view(&self) -> ErrorView {
        ErrorView {
            kind: self.spec_err_type(),
            code: self.spec_code(),
            message: self.spec_message(),
        }
    }
}

/// The error that the library makes for a cause: it has no code and
/// carries the given message.
pub open spec fn made(kind: ErrorType, message: Seq<char>) -> ErrorView {
    ErrorView { kind, code: None, message: Some(message) }
}

/// The error for keys that cannot key the ciphers.
pub open spec fn unusable_keys() -> ErrorView {
    made(ErrorType::Nettle, "invalid argument name: key"@)
}

/// The error for a cipher that returned a buffer of another length than
/// it was given.
pub open spec fn broken_blocks() -> ErrorView {
    made(ErrorType::Nettle, "a cipher did not return whole blocks"@)
}

/// The error for a ciphertext that is not a whole number of blocks.
pub open spec fn invalid_length() -> ErrorView {
    made(
        ErrorType::InvalidCiphertextLength,
        "invalid data length: not a multiple of the cipher's block size"@,
    )
}

/// The error for decrypted bytes that are not valid UTF-8.
pub open spec fn not_text() -> ErrorView {
    made(ErrorType::InvalidEncoding, "decrypted data is not valid UTF-8"@)
}

/// The error for a text that is not base64.
pub open spec fn not_base64() -> ErrorView {
    made(ErrorType::InvalidEncoding, "text is not base64"@)
}

/// The error for a passphrase that does not open the stored secret key.
pub open spec fn invalid_password() -> ErrorView {
    made(ErrorType::AuthenticationFailure, "Invalid Password"@)
}

/// The error for authenticating against a store that holds no secret key.
pub open spec fn no_secret_key() -> ErrorView {
    made(ErrorType::AuthenticationFailure, "no secret key is stored"@)
}

/// The error for storing a credential under a name that is stored
/// already.
pub open spec fn name_taken() -> ErrorView {
    made(ErrorType::AlreadyExists, "key with the same name already exist"@)
}

/// The error for a first run on a store that holds a secret key already.
pub open spec fn secret_key_taken() -> ErrorView {
    made(ErrorType::AlreadyExists, "a secret key is stored already"@)
}

impl ErrorDetails {
    /// The cause of the error.
    pub closed spec fn spec_err_type(&self) -> ErrorType {
        self.err_type
    }

    /// The numeric code, where the failing collaborator gave one.
    pub closed spec fn spec_code(&self) -> Option<isize> {
        self.code
    }

    /// The message text, where there is one.
    pub closed spec fn spec_message(&self) -> Option<Seq<char>> {
        match self.message {
            Some(m) => Some(m@),
            None => None,
        }
    }

    pub fn new(code: Option<isize>, message: Option<String>, err_type: ErrorType) -> (e: Self)
        ensures
            e@ == (ErrorView { kind: err_type, code, message: text_seen(message) }),
    {
        ErrorDetails { message, err_type, code }
    }

    /// An error of the given cause that carries only a message.
    pub fn of_kind(err_type: ErrorType, message: &str) -> (e: Self)
        ensures
            e@ == made(err_type, message@),
    {
        ErrorDetails { message: Some(message.to_owned()), err_type, code: None }
    }

    #[verifier::when_used_as_spec(spec_err_type)]
    pub fn err_type(&self) -> (t: ErrorType)
        ensures
            t == self.spec_err_type(),
    {
        self.err_type
    }

    #[verifier::when_used_as_spec(spec_code)]
    pub fn code(&self) -> (c: Option<isize>)
        ensures
            c == self.spec_code(),
    {
        self.code
    }

    /// The message, or the empty text where the error carries none.
    pub fn message(&self) -> (m: String)
        ensures
            m@ == (match self.spec_message() {
                Some(text) => text,
                None => Seq::<char>::empty(),
            }),
    {
        match &self.message {
            Some(m) => m.clone(),
            None => String::new(),
        }
    }
}

/// A result of bytes as mathematical values.
pub open spec fn bytes_outcome(out: Result<Vec<u8>, ErrorDetails>) -> Result<Seq<u8>, ErrorView> {
    match out {
        Ok(bytes) => Ok(bytes@),
        Err(e) => Err(e@),
    }
}

/// A result of text as mathematical values.
pub open spec fn text_outcome(out: Result<String, ErrorDetails>) -> Result<Seq<char>, ErrorView> {
    match out {
        Ok(text) => Ok(text@),
        Err(e) => Err(e@),
    }
}

/// A text that may be missing, or an error, as mathematical values.
pub open spec fn optional_text_outcome(out: Result<Option<String>, ErrorDetails>) -> Result<
    Option<Seq<char>>,
    ErrorView,
> {
    match out {
        Ok(Some(text)) => Ok(Some(text@)),
        Ok(None) => Ok(None),
        Err(e) => Err(e@),
    }
}

/// Whether an outcome is the given error.
pub open spec fn fails_with<T>(out: Result<T, ErrorView>, error: ErrorView) -> bool {
    out == Err::<T, ErrorView>(error)
}

/// Whether an outcome is success with the given value.
pub open spec fn gives<T>(out: Result<T, ErrorView>, value: T) -> bool {
    out == Ok::<T, ErrorView>(value)
}

/// What is there, or the given error where nothing is.
pub open spec fn ok_or<T>(found: Option<T>, error: ErrorView) -> Result<T, ErrorView> {
    match found {
        Some(value) => Ok(value),
        None => Err(error),
    }
}

/// A text that may be missing, as a mathematical value.
pub open spec fn text_seen(found: Option<String>) -> Option<Seq<char>> {
    match found {
        Some(text) => Some(text@),
        None => None,
    }
}

/// Success or an error, as mathematical values.
pub open spec fn unit_outcome(out: Result<(), ErrorDetails>) -> Result<(), ErrorView> {
    match out {
        Ok(_) => Ok(()),
        Err(e) => Err(e@),
    }
}

} // verus!
