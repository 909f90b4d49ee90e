use vstd::prelude::*;

use crate::commands::CommandStruct;
use crate::models::error::{
    bytes_outcome,
    fails_with,
    not_base64,
    ok_or,
    text_outcome,
    ErrorDetails,
    ErrorView,
};
use crate::services::encryption::{
    decrypts,
    Encryption,
    EncryptionService,
};
use crate::services::sql::SqliteService;
use crate::utils::encoding::{decode_bytes, decode_text, decoded, decoded_bytes};

verus! {

/// What decrypting the contents of an encrypted file may give: the
/// contents are read as base64, decrypted to a text, and that text is read
/// as base64 again. Contents or text that are not base64 give
/// `InvalidEncoding`.
pub open spec fn opens_file<C: EncryptionService>(
    engine: Encryption<C>,
    contents: Seq<u8>,
    out: Result<Seq<u8>, ErrorView>,
) -> bool {
    match decoded_bytes(contents) {
        None => fails_with(out, not_base64()),
        Some(sealed) => exists|opened: Result<Seq<char>, ErrorView>| #[trigger]
            decrypts(&engine.cipher(), engine.password_key(), engine.secret_key(), sealed, opened)
                && out == (match opened {
                Err(error) => Err(error),
                Ok(text) => ok_or(decoded(text), not_base64()),
            }),
    }
}

impl<SqlSrv: SqliteService, EncSrv: EncryptionService> CommandStruct<SqlSrv, EncSrv> {
    /// Decrypts the contents of an encrypted file back into the bytes of
    /// the file as it was before it was encrypted.
    pub fn decrypt_file(&self, contents: &[u8]) -> (out: Result<Vec<u8>, ErrorDetails>)
        ensures
            opens_file(self.engine(), contents@, bytes_outcome(out)),
    {
        let sealed = match decode_bytes(contents) {
            Ok(sealed) => sealed,
            Err(e) => {
                return Err(e);
            },
        };
        let opened = self.encryption_service.decrypt(sealed.as_slice());
        let ghost seen = text_outcome(opened);
        assert(decrypts(
            &self.engine().cipher(),
            self.engine().password_key(),
            self.engine().secret_key(),
            decoded_bytes(contents@)->Some_0,
            seen,
        ));
        match opened {
            Ok(text) => decode_text(text.as_str()),
            Err(e) => Err(e),
        }
    }
}

} // verus!
