use givme::models::credentials::Credentials;
use givme::models::enums::{get_os_and_username, ErrorType, OperatingSystem};
use givme::models::error::ErrorDetails;
use givme::services::sql::{MemoryStore, SqliteService};

#[test]
fn empty_note_is_no_note() {
    let c = Credentials::new("github", "s3cr3t", "");
    assert_eq!(c.key, "github");
    assert_eq!(c.value, "s3cr3t");
    assert_eq!(c.info, None);
    let c = Credentials::new("github", "s3cr3t", "personal");
    assert_eq!(c.info, Some("personal".to_string()));
}

#[test]
fn provide_gives_three_texts() {
    let c = Credentials::new("github", "s3cr3t", "personal");
    assert_eq!(c.provide(), ("github".to_string(), "s3cr3t".to_string(), "personal".to_string()));
    let c = Credentials::new("github", "s3cr3t", "");
    assert_eq!(c.provide(), ("github".to_string(), "s3cr3t".to_string(), String::new()));
    assert_eq!(c.duplicate(), c);
}

#[test]
fn error_carries_what_it_was_made_of() {
    let e = ErrorDetails::new(Some(19), Some("constraint failed".to_string()), ErrorType::Sqlite);
    assert_eq!(e.code(), Some(19));
    assert_eq!(e.err_type(), ErrorType::Sqlite);
    assert_eq!(e.message(), "constraint failed");
    let e = ErrorDetails::new(None, None, ErrorType::IO);
    assert_eq!(e.code(), None);
    assert_eq!(e.err_type(), ErrorType::IO);
    assert_eq!(e.message(), "");
    let e = ErrorDetails::of_kind(ErrorType::AlreadyExists, "exists");
    assert_eq!(e.code(), None);
    assert_eq!(e.err_type(), ErrorType::AlreadyExists);
    assert_eq!(e.message(), "exists");
}

#[test]
fn platform_names_are_mapped() {
    assert_eq!(get_os_and_username("linux"), Some(OperatingSystem::Linux));
    assert_eq!(get_os_and_username("windows"), Some(OperatingSystem::Windows));
    assert_eq!(get_os_and_username("macos"), Some(OperatingSystem::Mac));
    assert_eq!(get_os_and_username("freebsd"), Some(OperatingSystem::Other));
    assert_eq!(get_os_and_username(""), Some(OperatingSystem::Other));
    assert_eq!(get_os_and_username("Linux"), Some(OperatingSystem::Other));
}

fn record(key: &str, value: &str) -> Credentials {
    Credentials::new(key, value, "")
}

#[test]
fn store_keeps_records_in_order() {
    let mut store = MemoryStore::new();
    assert_eq!(store.len(), 0);
    store.save_to_sql(record("a", "1"), false).unwrap();
    store.save_to_sql(record("b", "2"), false).unwrap();
    store.save_to_sql(record("c", "3"), true).unwrap();
    assert_eq!(store.rows(), vec![record("a", "1"), record("b", "2"), record("c", "3")]);
    assert_eq!(store.get_from_sql("b").unwrap(), vec![record("b", "2")]);
    assert_eq!(store.get_from_sql("d").unwrap(), vec![]);
    assert_eq!(store.already_exist_in_sql("a").unwrap(), true);
    assert_eq!(store.already_exist_in_sql("A").unwrap(), false);
}

#[test]
fn store_saves_only_new_keys_unless_told() {
    let mut store = MemoryStore::new();
    store.save_to_sql(record("a", "1"), false).unwrap();
    store.save_to_sql(record("a", "2"), false).unwrap();
    assert_eq!(store.rows(), vec![record("a", "1")]);
    store.save_to_sql(Credentials::new("a", "3", "note"), true).unwrap();
    assert_eq!(store.rows(), vec![Credentials::new("a", "3", "note")]);
}

#[test]
fn store_replaces_every_record_of_a_key() {
    let mut store = MemoryStore::from_rows(vec![record("a", "1"), record("b", "2"), record("a", "3")]);
    assert_eq!(store.get_from_sql("a").unwrap(), vec![record("a", "1"), record("a", "3")]);
    store.save_to_sql(record("a", "9"), true).unwrap();
    assert_eq!(store.rows(), vec![record("a", "9"), record("b", "2"), record("a", "9")]);
}

#[test]
fn store_deletes_every_record_of_a_key() {
    let mut store = MemoryStore::from_rows(vec![record("a", "1"), record("b", "2"), record("a", "3")]);
    store.del_from_sql("a".to_string()).unwrap();
    assert_eq!(store.rows(), vec![record("b", "2")]);
    store.del_from_sql("a".to_string()).unwrap();
    assert_eq!(store.rows(), vec![record("b", "2")]);
    store.del_from_sql("b".to_string()).unwrap();
    assert_eq!(store.len(), 0);
}

#[test]
fn closed_store_fails_and_keeps_its_records() {
    let mut store = MemoryStore::from_rows(vec![record("a", "1")]);
    store.close();
    assert_eq!(store.get_from_sql("a").unwrap_err().err_type(), ErrorType::Sqlite);
    assert_eq!(store.already_exist_in_sql("a").unwrap_err().err_type(), ErrorType::Sqlite);
    assert_eq!(store.save_to_sql(record("b", "2"), true).unwrap_err().err_type(), ErrorType::Sqlite);
    assert_eq!(store.del_from_sql("a".to_string()).unwrap_err().err_type(), ErrorType::Sqlite);
    assert_eq!(store.rows(), vec![record("a", "1")]);
    assert_eq!(store.len(), 1);
}
