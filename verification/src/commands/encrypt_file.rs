use vstd::prelude::*;

use crate::commands::CommandStruct;
use crate::models::error::{text_outcome, ErrorDetails};
use crate::services::encryption::{storable_len, EncryptionService};
use crate::services::sql::SqliteService;
use crate::services::padding::survives_padding;
use crate::utils::encoding::{
    base64_encode,
    base64_len,
    base64_text,
    fits_base64,
    lemma_base64_text_survives,
};

verus! {

/// Whether a file of `len` bytes is short enough for this machine to
/// encrypt: both its own base64 text and that of its ciphertext must have
/// lengths that fit in `usize`.
pub open spec fn encryptable_len(len: nat) -> bool {
    &&& fits_base64(len)
    &&& storable_len(base64_len(len))
}

impl<SqlSrv: SqliteService, EncSrv: EncryptionService> CommandStruct<SqlSrv, EncSrv> {
    /// Encrypts the contents of a file: the bytes are written as base64,
    /// that text is encrypted, and the ciphertext is written as base64
    /// again, which is what the encrypted file holds. The base64 text is
    /// one that is recovered unchanged when it is decrypted.
    pub fn encrypt_file(&self, contents: &[u8]) -> (out: Result<String, ErrorDetails>)
        requires
            encryptable_len(contents@.len()),
        ensures
            self.engine().seals(base64_text(contents@), text_outcome(out)),
            survives_padding(base64_text(contents@)),
    {
        let text = base64_encode(contents);
        proof {
            lemma_base64_text_survives(text@);
        }
        self.encryption_service.seal_text(text.as_str())
    }
}

} // verus!
