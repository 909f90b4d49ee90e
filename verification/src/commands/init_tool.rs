//! The first run: the operator sets a master passphrase, and the vault
//! makes its secret key and stores it, sealed under the passphrase alone.

use vstd::prelude::*;
use vstd::string::StringExecFns;
use vstd::utf8::*;

use crate::commands::CommandStruct;
use crate::models::credentials::{Credentials, CredentialsView};
use crate::models::enums::ErrorType;
use crate::models::error::{
    fails_with,
    gives,
    made,
    secret_key_taken,
    text_outcome,
    unit_outcome,
    ErrorDetails,
    ErrorView,
};
use crate::services::encryption::{
    seal_text,
    seals_text,
    storable,
    EncryptionService,
};
use crate::services::sql::{holds, SqliteService};
use crate::utils::helpers::{
    adjust_password_length,
    is_secret_char,
    normalizable,
    normalized,
    rand_string,
};

verus! {

/// Length in bytes of the key that is made from the master passphrase.
pub const PASSWORD_LENGTH: usize = 24;

/// Length in characters of the secret that the first run generates.
pub const SECRET_LENGTH: usize = 32;

/// The name under which the sealed secret key is stored. It is the one
/// record whose name is kept in plain text.
pub open spec fn secret_key_name() -> Seq<char> {
    "secret_key"@
}

/// The passphrases that are refused as too common.
pub open spec fn common_passes() -> Seq<Seq<char>> {
    seq![
        "123456"@,
        "123456789"@,
        "picture1"@,
        "password"@,
        "12345678"@,
        "111111"@,
        "123123"@,
        "12345"@,
        "1234567890"@,
        "senha"@,
    ]
}

/// Whether a passphrase is one of the common ones.
pub open spec fn is_common(password: Seq<char>) -> bool {
    common_passes().contains(password)
}

/// Whether a text is the given literal.
fn same(text: &String, literal: &str) -> (equal: bool)
    ensures
        equal == (text@ == literal@),
{
    *text == String::from_str(literal)
}

/// Whether a passphrase is one of the common ones.
pub fn is_common_password(password: &str) -> (common: bool)
    ensures
        common == is_common(password@),
{
    let p = password.to_owned();
    let common = same(&p, "123456") || same(&p, "123456789") || same(&p, "picture1") || same(
        &p,
        "password",
    ) || same(&p, "12345678") || same(&p, "111111") || same(&p, "123123") || same(&p, "12345")
        || same(&p, "1234567890") || same(&p, "senha");
    proof {
        let list = common_passes();
        assert(list[0] == "123456"@ && list[1] == "123456789"@ && list[2] == "picture1"@ && list[3]
            == "password"@ && list[4] == "12345678"@);
        assert(list[5] == "111111"@ && list[6] == "123123"@ && list[7] == "12345"@ && list[8]
            == "1234567890"@ && list[9] == "senha"@);
        if list.contains(password@) {
            let i: int = choose|i: int| 0 <= i < list.len() && list[i] == password@;
            assert(0 <= i < 10);
        }
    }
    common
}

/// What the operator is told or asked next while the passphrase is set.
#[derive(Clone, Copy, Debug, PartialEq, Eq, Structural)]
pub enum SetupAction {
    /// The passphrase is acceptable: ask for it once more.
    AskConfirmation,
    /// A common passphrase was entered for the first time: warn, and ask
    /// again.
    WarnSoftly,
    /// A common passphrase was entered again: refuse it, and ask again.
    WarnCommon,
    /// The confirmation differs from the passphrase: say so, and start
    /// over.
    ReportMismatch,
    /// The confirmation matches: the passphrase is set.
    Accept,
}

/// Where the dialogue that sets the passphrase stands.
pub struct SetupPrompt {
    warned: bool,
    pending: Option<String>,
}

/// A state of the dialogue as mathematical values: whether the warning
/// about common passphrases was given, and the passphrase that awaits its
/// confirmation.
pub struct SetupPromptView {
    pub warned: bool,
    pub pending: Option<Seq<char>>,
}

/// The dialogue's next state and what to do, for a state and an entry of
/// the operator. While no passphrase awaits confirmation the entry is a
/// new passphrase; else it is the confirmation.
pub open spec fn entered(state: SetupPromptView, entry: Seq<char>) -> (
    SetupPromptView,
    SetupAction,
) {
    match state.pending {
        None => if is_common(entry) {
            if state.warned {
                (state, SetupAction::WarnCommon)
            } else {
                (SetupPromptView { warned: true, pending: None }, SetupAction::WarnSoftly)
            }
        } else {
            (
                SetupPromptView { warned: state.warned, pending: Some(entry) },
                SetupAction::AskConfirmation,
            )
        },
        Some(password) => if entry == password {
            (state, SetupAction::Accept)
        } else {
            (SetupPromptView { warned: state.warned, pending: None }, SetupAction::ReportMismatch)
        },
    }
}

impl View for SetupPrompt {
    type V = SetupPromptView;

    closed spec fn view(&self) -> SetupPromptView {
        SetupPromptView {
            warned: self.warned,
            pending: match self.pending {
                Some(p) => Some(p@),
                None => None,
            },
        }
    }
}

impl SetupPrompt {
    /// The dialogue's start: no warning given, nothing entered.
    pub fn new() -> (prompt: Self)
        ensures
            prompt@ == (SetupPromptView { warned: false, pending: None }),
    {
        SetupPrompt { warned: false, pending: None }
    }

    /// Takes an entry of the operator and says what to do next.
    pub fn enter(&mut self, entry: String) -> (action: SetupAction)
        ensures
            (final(self)@, action) == entered(old(self)@, entry@),
    {
        let awaited = match &self.pending {
            Some(password) => Some(*password == entry),
            None => None,
        };
        match awaited {
            None => {
                if is_common_password(entry.as_str()) {
                    if self.warned {
                        SetupAction::WarnCommon
                    } else {
                        self.warned = true;
                        SetupAction::WarnSoftly
                    }
                } else {
                    self.pending = Some(entry);
                    SetupAction::AskConfirmation
                }
            },
            Some(true) => SetupAction::Accept,
            Some(false) => {
                self.pending = None;
                SetupAction::ReportMismatch
            },
        }
    }
}

/// What the first run may give for a passphrase and a fresh secret: where
/// a secret key is stored already the answer is `AlreadyExists`; else the
/// secret is sealed with the passphrase's key on both cipher layers and
/// stored under the plain name `secret_key`, without a note. Whenever the
/// answer is an error the store is as it was. Where the store fails, its
/// own error is the answer.
pub open spec fn bootstraps<C: EncryptionService>(
    cipher: &C,
    failure: Option<ErrorView>,
    before: Seq<CredentialsView>,
    password: Seq<char>,
    secret: Seq<char>,
    after: Seq<CredentialsView>,
    out: Result<(), ErrorView>,
) -> bool {
    let key = encode_utf8(normalized(password, 24));
    (failure is Some && fails_with(out, failure->Some_0) && after == before) || (if holds(
        before,
        secret_key_name(),
    ) {
        fails_with(out, secret_key_taken()) && after == before
    } else {
        exists|sealed: Result<Seq<char>, ErrorView>| #[trigger]
            seals_text(cipher, key, key, secret, sealed) && (match sealed {
                Err(error) => fails_with(out, error) && after == before,
                Ok(v) => gives(out, ()) && after == before.push(
                    CredentialsView { key: secret_key_name(), value: v, info: None },
                ),
            })
    })
}

/// Whether a text may serve as the generated secret: 32 characters, each
/// printable and none an apostrophe.
pub open spec fn is_secret(secret: Seq<char>) -> bool {
    &&& secret.len() == 32
    &&& forall|i: int| 0 <= i < 32 ==> is_secret_char(#[trigger] secret[i])
}

impl<SqlSrv: SqliteService, EncSrv: EncryptionService> CommandStruct<SqlSrv, EncSrv> {
    /// Whether this is the first run, which it is while no secret key is
    /// stored.
    pub fn is_first_run(&mut self) -> (out: Result<bool, ErrorDetails>)
        ensures
            final(self).store() == old(self).store(),
            final(self).failure() == old(self).failure(),
            final(self).engine() == old(self).engine(),
            old(self).failure() is None ==> out is Ok,
            out matches Ok(first) ==> first == !holds(old(self).store(), secret_key_name()),
            out matches Err(e) ==> old(self).failure() == Some(e@),
    {
        match self.sql_service.already_exist_in_sql("secret_key") {
            Ok(exist) => Ok(!exist),
            Err(e) => Err(e),
        }
    }

    /// The first run with a given secret: seals the secret under the
    /// passphrase and stores it as the vault's secret key.
    pub fn init_setup_with(
        &mut self,
        password: &str,
        secret: &str,
    ) -> (out: Result<(), ErrorDetails>)
        requires
            normalizable(password@, 24),
            storable(secret@),
        ensures
            final(self).engine() == old(self).engine(),
            final(self).failure() == old(self).failure(),
            bootstraps(
                &old(self).engine().cipher(),
                old(self).failure(),
                old(self).store(),
                password@,
                secret@,
                final(self).store(),
                unit_outcome(out),
            ),
    {
        let ghost before = self.store();
        let exist = match self.sql_service.already_exist_in_sql("secret_key") {
            Ok(exist) => exist,
            Err(e) => {
                return Err(e);
            },
        };
        if exist {
            return Err(
                ErrorDetails::of_kind(ErrorType::AlreadyExists, "a secret key is stored already"),
            );
        }
        let key = adjust_password_length(password, PASSWORD_LENGTH);
        let sealed = seal_text(
            self.encryption_service.cipher_ref(),
            key.as_str(),
            key.as_str(),
            secret,
        );
        let ghost seen = text_outcome(sealed);
        assert(seals_text(
            &self.engine().cipher(),
            encode_utf8(normalized(password@, 24)),
            encode_utf8(normalized(password@, 24)),
            secret@,
            seen,
        ));
        let value = match sealed {
            Ok(v) => v,
            Err(e) => {
                return Err(e);
            },
        };
        let record = Credentials { key: String::from_str("secret_key"), value, info: None };
        assert(record@ == CredentialsView {
            key: secret_key_name(),
            value: seen->Ok_0,
            info: None,
        });
        match self.sql_service.save_to_sql(record, false) {
            Ok(()) => Ok(()),
            Err(e) => Err(e),
        }
    }

    /// The first run: generates a random secret, seals it under the
    /// passphrase and stores it as the vault's secret key.
    pub fn init_setup(&mut self, password: &str) -> (out: Result<(), ErrorDetails>)
        requires
            normalizable(password@, 24),
        ensures
            final(self).engine() == old(self).engine(),
            final(self).failure() == old(self).failure(),
            exists|secret: Seq<char>|
                is_secret(secret) && #[trigger] bootstraps(
                    &old(self).engine().cipher(),
                    old(self).failure(),
                    old(self).store(),
                    password@,
                    secret,
                    final(self).store(),
                    unit_outcome(out),
                ),
    {
        let secret = rand_string(SECRET_LENGTH);
        assert(is_secret(secret@));
        self.init_setup_with(password, secret.as_str())
    }
}

} // verus!
