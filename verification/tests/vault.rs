use givme::commands::init_tool::{is_common_password, SetupAction, SetupPrompt};
use givme::commands::secret_key::secret_key_from;
use givme::commands::CommandStruct;
use givme::models::credentials::Credentials;
use givme::models::enums::ErrorType;
use givme::models::services::Services;
use givme::services::encryption::{decrypt, encrypt, Encryption, EncryptionService};
use givme::services::sql::{MemoryStore, SqliteService};

/// Stand-ins for the two block ciphers: keyed, invertible, and with
/// different constants for each, so that a wrong key or a swapped layer
/// gives other bytes. They check what the engine promises to hand them.
struct TestCipher;

fn seal(key: &[u8], blocks: &[u8], a: u8, b: u8, c: u8) -> Vec<u8> {
    (0..blocks.len())
        .map(|i| {
            blocks[i]
                .wrapping_mul(a)
                .wrapping_add(key[i % key.len()].wrapping_mul(b))
                .wrapping_add((i as u8).wrapping_mul(c))
        })
        .collect()
}

fn open(key: &[u8], blocks: &[u8], inverse: u8, b: u8, c: u8) -> Vec<u8> {
    (0..blocks.len())
        .map(|i| {
            blocks[i]
                .wrapping_sub(key[i % key.len()].wrapping_mul(b))
                .wrapping_sub((i as u8).wrapping_mul(c))
                .wrapping_mul(inverse)
        })
        .collect()
}

impl EncryptionService for TestCipher {
    fn twofish_encrypt(&self, key: &[u8], blocks: &[u8]) -> Vec<u8> {
        assert!(16 <= key.len() && key.len() <= 32);
        assert_eq!(blocks.len() % 16, 0);
        seal(key, blocks, 167, 31, 13)
    }

    fn twofish_decrypt(&self, key: &[u8], blocks: &[u8]) -> Vec<u8> {
        assert!(16 <= key.len() && key.len() <= 32);
        assert_eq!(blocks.len() % 16, 0);
        open(key, blocks, 23, 31, 13)
    }

    fn des3_encrypt(&self, key: &[u8], blocks: &[u8]) -> Vec<u8> {
        assert_eq!(key.len(), 24);
        assert_eq!(blocks.len() % 8, 0);
        seal(key, blocks, 91, 57, 29)
    }

    fn des3_decrypt(&self, key: &[u8], blocks: &[u8]) -> Vec<u8> {
        assert_eq!(key.len(), 24);
        assert_eq!(blocks.len() % 8, 0);
        open(key, blocks, 211, 57, 29)
    }
}

/// A cipher that returns one byte too few.
struct ShortCipher;

impl EncryptionService for ShortCipher {
    fn twofish_encrypt(&self, _key: &[u8], blocks: &[u8]) -> Vec<u8> {
        blocks[1..].to_vec()
    }

    fn twofish_decrypt(&self, _key: &[u8], blocks: &[u8]) -> Vec<u8> {
        blocks.to_vec()
    }

    fn des3_encrypt(&self, _key: &[u8], blocks: &[u8]) -> Vec<u8> {
        blocks.to_vec()
    }

    fn des3_decrypt(&self, _key: &[u8], blocks: &[u8]) -> Vec<u8> {
        blocks[1..].to_vec()
    }
}

const PASSWORD_KEY: &str = "CorrectHorseCorrectHorse";
const SECRET: &str = "0123456789abcdefghijklmnopqrstuv";
const SECRET_KEY: &str = "456789abcdefghijklmnopqrstuv";

fn engine() -> Encryption<TestCipher> {
    Encryption::new(PASSWORD_KEY.to_string(), SECRET_KEY.to_string(), TestCipher)
}

fn empty_vault() -> CommandStruct<MemoryStore, TestCipher> {
    CommandStruct::new(Services {
        encryption: Encryption::new(String::new(), String::new(), TestCipher),
        sql: MemoryStore::new(),
    })
}

fn open_vault(passphrase: &str) -> CommandStruct<MemoryStore, TestCipher> {
    let mut vault = empty_vault();
    vault.init_setup_with(passphrase, SECRET).unwrap();
    vault.extract_secret_key(passphrase).unwrap();
    vault
}

#[test]
fn round_trip_gives_the_text_back() {
    let e = engine();
    for text in ["", "a", "s3cr3t", "0123456789abcdef", "0123456789abcdefg", "personal note", "é"] {
        let sealed = e.encrypt(text.to_string()).unwrap();
        assert_eq!(sealed.len() % 16, 0);
        assert_eq!(e.decrypt(&sealed).unwrap(), text);
    }
}

#[test]
fn round_trip_with_explicit_keys() {
    let sealed = encrypt(&TestCipher, PASSWORD_KEY, PASSWORD_KEY, SECRET).unwrap();
    assert_eq!(sealed.len(), 32);
    assert_eq!(decrypt(&TestCipher, PASSWORD_KEY, PASSWORD_KEY, &sealed).unwrap(), SECRET);
}

#[test]
fn encryption_is_deterministic() {
    let e = engine();
    assert_eq!(e.encrypt("github".to_string()).unwrap(), e.encrypt("github".to_string()).unwrap());
    assert_eq!(e.seal_text("github").unwrap(), "WqEMcQZuIRaG8uyPvku3eA==");
    assert_eq!(e.seal_text("s3cr3t").unwrap(), "tgPfEwz4IRaG8uyPvku3eA==");
}

#[test]
fn layers_are_applied_outer_first() {
    let e = engine();
    let mut padded = b"github".to_vec();
    padded.resize(16, 0);
    let stage = TestCipher.twofish_encrypt(SECRET_KEY.as_bytes(), &padded);
    let expected = TestCipher.des3_encrypt(PASSWORD_KEY.as_bytes(), &stage);
    assert_eq!(e.encrypt("github".to_string()).unwrap(), expected);
}

#[test]
fn ciphertext_of_wrong_length_is_refused() {
    let e = engine();
    for len in [1usize, 8, 15, 17, 24, 31] {
        let err = e.decrypt(&vec![7u8; len]).unwrap_err();
        assert_eq!(err.err_type(), ErrorType::InvalidCiphertextLength);
    }
    // The length is looked at before the keys are.
    let unkeyed = Encryption::new(String::new(), String::new(), TestCipher);
    assert_eq!(unkeyed.decrypt(&[1, 2, 3]).unwrap_err().err_type(), ErrorType::InvalidCiphertextLength);
}

#[test]
fn empty_ciphertext_is_the_empty_text() {
    assert_eq!(engine().decrypt(&[]).unwrap(), "");
}

#[test]
fn garbage_is_not_text() {
    let err = engine().decrypt(&[0u8; 16]).unwrap_err();
    assert_eq!(err.err_type(), ErrorType::InvalidEncoding);
}

#[test]
fn keys_of_wrong_size_are_refused() {
    let short_password = Encryption::new("short".to_string(), SECRET_KEY.to_string(), TestCipher);
    assert!(!short_password.is_usable());
    assert_eq!(short_password.encrypt("x".to_string()).unwrap_err().err_type(), ErrorType::Nettle);
    assert_eq!(short_password.decrypt(&[0u8; 16]).unwrap_err().err_type(), ErrorType::Nettle);
    let short_key = Encryption::new(PASSWORD_KEY.to_string(), "fifteen-bytes!!".to_string(), TestCipher);
    assert_eq!(short_key.encrypt("x".to_string()).unwrap_err().err_type(), ErrorType::Nettle);
    let long_key = Encryption::new(PASSWORD_KEY.to_string(), "x".repeat(33), TestCipher);
    assert_eq!(long_key.encrypt("x".to_string()).unwrap_err().err_type(), ErrorType::Nettle);
    assert!(engine().is_usable());
    assert!(Encryption::new(PASSWORD_KEY.to_string(), "x".repeat(16), TestCipher).is_usable());
    assert!(Encryption::new(PASSWORD_KEY.to_string(), "x".repeat(32), TestCipher).is_usable());
}

#[test]
fn cipher_that_breaks_blocks_is_an_error() {
    let e = Encryption::new(PASSWORD_KEY.to_string(), SECRET_KEY.to_string(), ShortCipher);
    assert_eq!(e.encrypt("x".to_string()).unwrap_err().err_type(), ErrorType::Nettle);
    assert_eq!(e.decrypt(&[0u8; 16]).unwrap_err().err_type(), ErrorType::Nettle);
}

#[test]
fn stored_text_is_opened() {
    let e = engine();
    assert_eq!(e.open_text("tgPfEwz4IRaG8uyPvku3eA==").unwrap(), "s3cr3t");
    assert_eq!(e.open_text("not base64").unwrap_err().err_type(), ErrorType::InvalidEncoding);
    assert_eq!(e.open_text("AAAA").unwrap_err().err_type(), ErrorType::InvalidCiphertextLength);
}

#[test]
fn secret_key_is_bytes_four_to_thirty_two() {
    assert_eq!(secret_key_from(SECRET), Some(SECRET_KEY.to_string()));
    assert_eq!(secret_key_from("test0123456789abcdefghijklmnopqrstuvwxyz"), Some("0123456789abcdefghijklmnopqr".to_string()));
    assert_eq!(secret_key_from("0123456789abcdefghijklmnopqrstu"), None);
    assert_eq!(secret_key_from(""), None);
    // A cut inside a character is no key.
    assert_eq!(secret_key_from("012é456789abcdefghijklmnopqrstuv"), None);
}

#[test]
fn first_run_stores_the_sealed_secret() {
    let mut vault = empty_vault();
    assert_eq!(vault.is_first_run().unwrap(), true);
    vault.init_setup_with("CorrectHorse", SECRET).unwrap();
    assert_eq!(vault.is_first_run().unwrap(), false);
    let rows = vault.sql().rows();
    assert_eq!(rows.len(), 1);
    assert_eq!(rows[0].key, "secret_key");
    assert_eq!(rows[0].value, "qms+V0rnHo8a7W8kAcKVrqE+deZxRJtQLe7B2s1qoRI=");
    assert_eq!(rows[0].info, None);
}

#[test]
fn first_run_is_refused_when_a_key_is_stored() {
    let mut vault = empty_vault();
    vault.init_setup_with("CorrectHorse", SECRET).unwrap();
    let before = vault.sql().rows();
    let err = vault.init_setup_with("OtherPass", SECRET).unwrap_err();
    assert_eq!(err.err_type(), ErrorType::AlreadyExists);
    assert_eq!(vault.sql().rows(), before);
    assert_eq!(vault.init_setup("OtherPass").unwrap_err().err_type(), ErrorType::AlreadyExists);
}

#[test]
fn first_run_generates_a_secret() {
    let mut vault = empty_vault();
    vault.init_setup("CorrectHorse").unwrap();
    vault.extract_secret_key("CorrectHorse").unwrap();
    let key = vault.encryption().key_text();
    assert_eq!(key.len(), 28);
    assert!(key.chars().all(|c| ' ' <= c && c <= '~' && c != '\''));
    assert_eq!(vault.encryption().password_text(), PASSWORD_KEY);
}

#[test]
fn steady_run_recovers_the_secret_key() {
    let vault = open_vault("CorrectHorse");
    assert_eq!(vault.encryption().password_text(), PASSWORD_KEY);
    assert_eq!(vault.encryption().key_text(), SECRET_KEY);
    assert!(vault.encryption().is_usable());
}

#[test]
fn wrong_passphrase_fails_authentication() {
    for wrong in ["WrongHorse", "hunter2", "correcthorse", "CorrectHorse!"] {
        let mut vault = empty_vault();
        vault.init_setup_with("CorrectHorse", SECRET).unwrap();
        let err = vault.extract_secret_key(wrong).unwrap_err();
        assert_eq!(err.err_type(), ErrorType::AuthenticationFailure);
        // The engine is left without keys.
        assert_eq!(vault.encryption().key_text(), "");
        assert!(!vault.encryption().is_usable());
    }
}

#[test]
fn authentication_needs_a_stored_key() {
    let mut vault = empty_vault();
    let err = vault.extract_secret_key("CorrectHorse").unwrap_err();
    assert_eq!(err.err_type(), ErrorType::AuthenticationFailure);
}

#[test]
fn corrupt_secret_key_fails_authentication() {
    let mut store = MemoryStore::new();
    store.save_to_sql(Credentials::new("secret_key", "%%%", ""), false).unwrap();
    let mut vault = CommandStruct::new(Services {
        encryption: Encryption::new(String::new(), String::new(), TestCipher),
        sql: store,
    });
    let err = vault.extract_secret_key("CorrectHorse").unwrap_err();
    assert_eq!(err.err_type(), ErrorType::AuthenticationFailure);
}

#[test]
fn end_to_end_store_and_get() {
    let mut vault = open_vault("CorrectHorse");
    vault.save_encrypt_value(Credentials::new("github", "s3cr3t", "personal")).unwrap();
    let found = vault.get_decrypt_value("github").unwrap().unwrap();
    assert_eq!(found.key, "github");
    assert_eq!(found.value, "s3cr3t");
    assert_eq!(found.info, Some("personal".to_string()));
    assert_eq!(found, Credentials::new("github", "s3cr3t", "personal"));

    // Nothing is stored in plain text, and the name is found by its ciphertext.
    let rows = vault.sql().rows();
    assert_eq!(rows.len(), 2);
    assert_eq!(rows[1].key, "WqEMcQZuIRaG8uyPvku3eA==");
    assert_eq!(rows[1].value, "tgPfEwz4IRaG8uyPvku3eA==");
    assert_eq!(rows[1].info, Some("ny1ScNjKXlKG8uyPvku3eA==".to_string()));

    // Under a wrong passphrase the vault does not open at all.
    let store = vault.into_services().sql;
    let mut other = CommandStruct::new(Services {
        encryption: Encryption::new(String::new(), String::new(), TestCipher),
        sql: store,
    });
    let err = other.extract_secret_key("WrongHorse").unwrap_err();
    assert_eq!(err.err_type(), ErrorType::AuthenticationFailure);
    // And under the right one it does, in a new session.
    other.extract_secret_key("CorrectHorse").unwrap();
    assert_eq!(other.get_decrypt_value("github").unwrap().unwrap().value, "s3cr3t");
}

#[test]
fn credential_without_note_has_none() {
    let mut vault = open_vault("CorrectHorse");
    vault.save_encrypt_value(Credentials::new("mail", "pw", "")).unwrap();
    let found = vault.get_decrypt_value("mail").unwrap().unwrap();
    assert_eq!(found.info, None);
    assert_eq!(vault.sql().rows()[1].info, None);
}

#[test]
fn missing_credential_is_none() {
    let mut vault = open_vault("CorrectHorse");
    assert_eq!(vault.get_decrypt_value("github").unwrap(), None);
    // The secret key is not a credential: its name is stored in plain text.
    assert_eq!(vault.get_decrypt_value("secret_key").unwrap(), None);
}

#[test]
fn second_put_is_refused_and_changes_nothing() {
    let mut vault = open_vault("CorrectHorse");
    vault.save_encrypt_value(Credentials::new("github", "s3cr3t", "personal")).unwrap();
    let before = vault.sql().rows();
    let err = vault.save_encrypt_value(Credentials::new("github", "other", "")).unwrap_err();
    assert_eq!(err.err_type(), ErrorType::AlreadyExists);
    assert_eq!(vault.sql().rows(), before);
    assert_eq!(vault.get_decrypt_value("github").unwrap().unwrap().value, "s3cr3t");
}

#[test]
fn overwrite_replaces_the_record() {
    let mut vault = open_vault("CorrectHorse");
    vault.save_encrypt_value(Credentials::new("github", "s3cr3t", "personal")).unwrap();
    vault.save_encrypt_value(Credentials::new("mail", "pw", "")).unwrap();
    vault.overwrite_encrypt_value(Credentials::new("github", "n3w", "")).unwrap();
    assert_eq!(vault.sql().len(), 3);
    assert_eq!(vault.get_decrypt_value("github").unwrap().unwrap(), Credentials::new("github", "n3w", ""));
    assert_eq!(vault.get_decrypt_value("mail").unwrap().unwrap().value, "pw");
    // Overwriting what is not there stores it.
    vault.overwrite_encrypt_value(Credentials::new("bank", "1234", "pin")).unwrap();
    assert_eq!(vault.sql().len(), 4);
    assert_eq!(vault.get_decrypt_value("bank").unwrap().unwrap().info, Some("pin".to_string()));
}

#[test]
fn delete_removes_and_is_idempotent() {
    let mut vault = open_vault("CorrectHorse");
    vault.save_encrypt_value(Credentials::new("github", "s3cr3t", "personal")).unwrap();
    vault.save_encrypt_value(Credentials::new("mail", "pw", "")).unwrap();
    vault.delete_by_keyname("github".to_string()).unwrap();
    assert_eq!(vault.get_decrypt_value("github").unwrap(), None);
    assert_eq!(vault.get_decrypt_value("mail").unwrap().unwrap().value, "pw");
    assert_eq!(vault.sql().len(), 2);
    vault.delete_by_keyname("github".to_string()).unwrap();
    assert_eq!(vault.sql().len(), 2);
    // A deleted name can be stored again.
    vault.save_encrypt_value(Credentials::new("github", "again", "")).unwrap();
    assert_eq!(vault.get_decrypt_value("github").unwrap().unwrap().value, "again");
}

#[test]
fn commands_without_keys_fail() {
    let mut vault = empty_vault();
    vault.init_setup_with("CorrectHorse", SECRET).unwrap();
    let err = vault.save_encrypt_value(Credentials::new("github", "s3cr3t", "")).unwrap_err();
    assert_eq!(err.err_type(), ErrorType::Nettle);
    assert_eq!(vault.get_decrypt_value("github").unwrap_err().err_type(), ErrorType::Nettle);
    assert_eq!(vault.delete_by_keyname("github".to_string()).unwrap_err().err_type(), ErrorType::Nettle);
    assert_eq!(vault.sql().len(), 1);
}

#[test]
fn corrupt_record_is_reported() {
    let mut vault = open_vault("CorrectHorse");
    let mut store = vault.into_services().sql;
    // A record under the right lookup key whose value is no ciphertext.
    store.save_to_sql(Credentials::new("WqEMcQZuIRaG8uyPvku3eA==", "AAAA", ""), false).unwrap();
    vault = CommandStruct::new(Services { encryption: engine(), sql: store });
    let err = vault.get_decrypt_value("github").unwrap_err();
    assert_eq!(err.err_type(), ErrorType::InvalidCiphertextLength);
}

#[test]
fn file_contents_round_trip() {
    let vault = open_vault("CorrectHorse");
    for contents in [&b""[..], &b"hello"[..], &[0u8, 255, 1, 254, 0, 0][..], &[9u8; 100][..]] {
        let sealed = vault.encrypt_file(contents).unwrap();
        assert!(sealed.is_ascii());
        assert_eq!(vault.decrypt_file(sealed.as_bytes()).unwrap(), contents);
    }
}

#[test]
fn file_that_is_not_encrypted_is_refused() {
    let vault = open_vault("CorrectHorse");
    assert_eq!(vault.decrypt_file(b"plain text!").unwrap_err().err_type(), ErrorType::InvalidEncoding);
    assert_eq!(vault.decrypt_file(b"AAAA").unwrap_err().err_type(), ErrorType::InvalidCiphertextLength);
    // Ciphertext of a text that is not base64.
    let sealed = vault.encryption().seal_text("not base64!").unwrap();
    assert_eq!(vault.decrypt_file(sealed.as_bytes()).unwrap_err().err_type(), ErrorType::InvalidEncoding);
}

#[test]
fn common_passphrases_are_known() {
    for common in ["123456", "123456789", "picture1", "password", "12345678", "111111", "123123", "12345", "1234567890", "senha"] {
        assert!(is_common_password(common), "{}", common);
    }
    for other in ["", "1234567", "Password", "CorrectHorse", "senha1"] {
        assert!(!is_common_password(other), "{}", other);
    }
}

#[test]
fn dialogue_warns_once_then_refuses() {
    let mut prompt = SetupPrompt::new();
    assert_eq!(prompt.enter("password".to_string()), SetupAction::WarnSoftly);
    assert_eq!(prompt.enter("123456".to_string()), SetupAction::WarnCommon);
    assert_eq!(prompt.enter("password".to_string()), SetupAction::WarnCommon);
    assert_eq!(prompt.enter("CorrectHorse".to_string()), SetupAction::AskConfirmation);
    assert_eq!(prompt.enter("CorrectHorse".to_string()), SetupAction::Accept);
}

#[test]
fn dialogue_starts_over_on_mismatch() {
    let mut prompt = SetupPrompt::new();
    assert_eq!(prompt.enter("CorrectHorse".to_string()), SetupAction::AskConfirmation);
    assert_eq!(prompt.enter("CorrectHorsf".to_string()), SetupAction::ReportMismatch);
    // The next entry is a passphrase again, and a common one is still warned of softly.
    assert_eq!(prompt.enter("senha".to_string()), SetupAction::WarnSoftly);
    assert_eq!(prompt.enter("CorrectHorse".to_string()), SetupAction::AskConfirmation);
    // A common word as confirmation is a mismatch, not a warning.
    assert_eq!(prompt.enter("password".to_string()), SetupAction::ReportMismatch);
    assert_eq!(prompt.enter("CorrectHorse".to_string()), SetupAction::AskConfirmation);
    assert_eq!(prompt.enter("CorrectHorse".to_string()), SetupAction::Accept);
}

#[test]
fn own_key_is_sealed_as_secret_key() {
    let e = engine();
    assert!(e.confirms(PASSWORD_KEY));
    assert!(!e.confirms("CorrectHorse"));
    assert_eq!(e.encrypt_secret_key(false).unwrap(), None);
    let sealed = e.encrypt_secret_key(true).unwrap().unwrap();
    assert_eq!(e.open_text(&sealed).unwrap(), "CorrectHorseCorrectHorseCorrectH");
    assert_eq!(e.decrypt_secret_key(sealed).unwrap(), "CorrectHorseCorrectHorseCorrectH");
}

#[test]
fn long_key_is_sealed_as_it_is() {
    let long = "0123456789abcdefghijklmnopqrstuvwxyz";
    let e = Encryption::new(long.to_string(), SECRET_KEY.to_string(), TestCipher);
    // Thirty-six bytes are not a passphrase key, so the sealing itself is refused.
    assert_eq!(e.encrypt_secret_key(false).unwrap_err().err_type(), ErrorType::Nettle);
}

#[test]
fn secret_key_that_does_not_open_fails_authentication() {
    let e = engine();
    assert_eq!(e.decrypt_secret_key("%%%".to_string()).unwrap_err().err_type(), ErrorType::AuthenticationFailure);
    assert_eq!(e.decrypt_secret_key("AAAA".to_string()).unwrap_err().err_type(), ErrorType::AuthenticationFailure);
    let other = Encryption::new("hunter2hunter2hunter2hun".to_string(), SECRET_KEY.to_string(), TestCipher);
    let sealed = other.seal_text(SECRET).unwrap();
    assert_eq!(e.decrypt_secret_key(sealed).unwrap_err().err_type(), ErrorType::AuthenticationFailure);
}

#[test]
fn run_is_set_up_from_the_store() {
    let mut vault = empty_vault();
    vault.init_setup_with("CorrectHorse", SECRET).unwrap();
    vault.extract_secret_key("CorrectHorse").unwrap();
    vault.save_encrypt_value(Credentials::new("github", "s3cr3t", "personal")).unwrap();
    let rows = vault.sql().rows();

    let deps = givme::config::loader::init_services(
        MemoryStore::from_rows(rows.clone()),
        TestCipher,
        "CorrectHorse",
        "linux",
        "alice".to_string(),
    )
    .unwrap();
    assert_eq!(deps.key, SECRET_KEY);
    assert_eq!(deps.password, PASSWORD_KEY);
    assert_eq!(deps.os, givme::models::enums::OperatingSystem::Linux);
    assert_eq!(deps.username, "alice");
    assert_eq!(deps.services.sql.rows(), rows);
    let mut handler = CommandStruct::new(deps.services);
    assert_eq!(handler.get_decrypt_value("github").unwrap().unwrap().value, "s3cr3t");

    let err = givme::config::loader::init_services(
        MemoryStore::from_rows(rows),
        TestCipher,
        "WrongHorse",
        "linux",
        "alice".to_string(),
    )
    .err()
    .unwrap();
    assert_eq!(err.err_type(), ErrorType::AuthenticationFailure);
}

#[test]
fn stored_names_are_found() {
    let mut vault = open_vault("CorrectHorse");
    assert_eq!(vault.key_exists("github").unwrap(), false);
    vault.save_encrypt_value(Credentials::new("github", "s3cr3t", "personal")).unwrap();
    assert_eq!(vault.key_exists("github").unwrap(), true);
    assert_eq!(vault.key_exists("Github").unwrap(), false);
    vault.delete_by_keyname("github".to_string()).unwrap();
    assert_eq!(vault.key_exists("github").unwrap(), false);
    assert_eq!(empty_vault().key_exists("github").unwrap_err().err_type(), ErrorType::Nettle);
}

fn closed_vault() -> CommandStruct<MemoryStore, TestCipher> {
    let mut vault = open_vault("CorrectHorse");
    vault.save_encrypt_value(Credentials::new("github", "s3cr3t", "personal")).unwrap();
    let mut store = vault.into_services().sql;
    store.close();
    CommandStruct::new(Services { encryption: engine(), sql: store })
}

#[test]
fn commands_report_a_failing_store() {
    let mut vault = closed_vault();
    let before = vault.sql().rows();
    assert_eq!(vault.get_decrypt_value("github").unwrap_err().err_type(), ErrorType::Sqlite);
    assert_eq!(vault.key_exists("github").unwrap_err().err_type(), ErrorType::Sqlite);
    let cred = Credentials::new("mail", "pw", "");
    assert_eq!(vault.save_encrypt_value(cred.clone()).unwrap_err().err_type(), ErrorType::Sqlite);
    assert_eq!(vault.overwrite_encrypt_value(cred).unwrap_err().err_type(), ErrorType::Sqlite);
    assert_eq!(vault.delete_by_keyname("github".to_string()).unwrap_err().err_type(), ErrorType::Sqlite);
    assert_eq!(vault.is_first_run().unwrap_err().err_type(), ErrorType::Sqlite);
    assert_eq!(vault.init_setup_with("CorrectHorse", SECRET).unwrap_err().err_type(), ErrorType::Sqlite);
    assert_eq!(vault.extract_secret_key("CorrectHorse").unwrap_err().err_type(), ErrorType::Sqlite);
    assert_eq!(vault.sql().rows(), before);
}

#[test]
fn secret_key_is_set_anew() {
    let mut vault = open_vault("CorrectHorse");
    vault.save_encrypt_value(Credentials::new("github", "s3cr3t", "")).unwrap();
    let before = vault.sql().rows();
    // Without leave to resize, the short key is not sealed and nothing changes.
    assert_eq!(vault.set_secret_key(false).unwrap(), false);
    assert_eq!(vault.sql().rows(), before);
    // With it, the sealed key takes the place of the stored one.
    assert_eq!(vault.set_secret_key(true).unwrap(), true);
    let rows = vault.sql().rows();
    assert_eq!(rows.len(), 2);
    assert_eq!(rows[0].key, "secret_key");
    assert_ne!(rows[0].value, before[0].value);
    assert_eq!(rows[0].info, None);
    assert_eq!(rows[1], before[1]);
    let opened = vault.encryption().decrypt_secret_key(rows[0].value.clone()).unwrap();
    assert_eq!(opened, "CorrectHorseCorrectHorseCorrectH");
}

#[test]
fn secret_key_is_appended_where_none_is_stored() {
    let mut vault = CommandStruct::new(Services { encryption: engine(), sql: MemoryStore::new() });
    assert_eq!(vault.set_secret_key(true).unwrap(), true);
    let rows = vault.sql().rows();
    assert_eq!(rows.len(), 1);
    assert_eq!(rows[0].key, "secret_key");
}

#[test]
fn setting_the_secret_key_reports_failures() {
    let mut vault = closed_vault();
    let before = vault.sql().rows();
    let err = vault.set_secret_key(true).unwrap_err();
    assert_eq!(err.err_type(), ErrorType::Sqlite);
    assert_eq!(err.message(), "the store is closed");
    assert_eq!(vault.set_secret_key(false).unwrap(), false);
    assert_eq!(vault.sql().rows(), before);
    // A key that cannot key the outer cipher cannot seal anything.
    let mut badly_keyed = CommandStruct::new(Services {
        encryption: Encryption::new(PASSWORD_KEY.to_string(), "short".to_string(), TestCipher),
        sql: MemoryStore::new(),
    });
    assert_eq!(badly_keyed.set_secret_key(true).unwrap_err().err_type(), ErrorType::Nettle);
    assert_eq!(badly_keyed.sql().len(), 0);
}

fn check(err: givme::models::error::ErrorDetails, kind: ErrorType, message: &str) {
    assert_eq!(err.err_type(), kind);
    assert_eq!(err.code(), None);
    assert_eq!(err.message(), message);
}

#[test]
fn errors_carry_their_messages() {
    let e = engine();
    check(
        e.decrypt(&[0u8; 15]).unwrap_err(),
        ErrorType::InvalidCiphertextLength,
        "invalid data length: not a multiple of the cipher's block size",
    );
    check(e.decrypt(&[0u8; 16]).unwrap_err(), ErrorType::InvalidEncoding, "decrypted data is not valid UTF-8");
    check(e.open_text("%%%").unwrap_err(), ErrorType::InvalidEncoding, "text is not base64");
    check(e.decrypt_secret_key("%%%".to_string()).unwrap_err(), ErrorType::AuthenticationFailure, "Invalid Password");
    let unkeyed = Encryption::new(String::new(), String::new(), TestCipher);
    check(unkeyed.encrypt("x".to_string()).unwrap_err(), ErrorType::Nettle, "invalid argument name: key");
    check(unkeyed.decrypt(&[0u8; 16]).unwrap_err(), ErrorType::Nettle, "invalid argument name: key");
    let short = Encryption::new(PASSWORD_KEY.to_string(), SECRET_KEY.to_string(), ShortCipher);
    check(short.encrypt("x".to_string()).unwrap_err(), ErrorType::Nettle, "a cipher did not return whole blocks");

    let mut vault = open_vault("CorrectHorse");
    vault.save_encrypt_value(Credentials::new("github", "s3cr3t", "")).unwrap();
    check(
        vault.save_encrypt_value(Credentials::new("github", "other", "")).unwrap_err(),
        ErrorType::AlreadyExists,
        "key with the same name already exist",
    );
    check(
        vault.init_setup_with("CorrectHorse", SECRET).unwrap_err(),
        ErrorType::AlreadyExists,
        "a secret key is stored already",
    );
    check(vault.extract_secret_key("WrongHorse").unwrap_err(), ErrorType::AuthenticationFailure, "Invalid Password");
    check(
        empty_vault().extract_secret_key("CorrectHorse").unwrap_err(),
        ErrorType::AuthenticationFailure,
        "no secret key is stored",
    );
}

#[test]
fn store_errors_are_handed_on_as_they_are() {
    let mut vault = closed_vault();
    check(vault.get_decrypt_value("github").unwrap_err(), ErrorType::Sqlite, "the store is closed");
    check(vault.key_exists("github").unwrap_err(), ErrorType::Sqlite, "the store is closed");
    check(
        vault.save_encrypt_value(Credentials::new("mail", "pw", "")).unwrap_err(),
        ErrorType::Sqlite,
        "the store is closed",
    );
    check(
        vault.overwrite_encrypt_value(Credentials::new("mail", "pw", "")).unwrap_err(),
        ErrorType::Sqlite,
        "the store is closed",
    );
    check(vault.delete_by_keyname("github".to_string()).unwrap_err(), ErrorType::Sqlite, "the store is closed");
    check(vault.is_first_run().unwrap_err(), ErrorType::Sqlite, "the store is closed");
    check(vault.extract_secret_key("CorrectHorse").unwrap_err(), ErrorType::Sqlite, "the store is closed");
}
