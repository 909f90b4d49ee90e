use givme::utils::helpers::{
    adjust_password_length, exceeds_length, rand_string, secret_from_draws,
    try_adjust_password_length,
};

#[test]
fn truncates_longer_input() {
    assert_eq!(adjust_password_length("abcdefghij", 5), "abcde");
}

#[test]
fn repeats_shorter_input() {
    assert_eq!(adjust_password_length("ab", 5), "ababa");
}

#[test]
fn exact_length_is_unchanged() {
    assert_eq!(adjust_password_length("abcde", 5), "abcde");
    let s = "CorrectHorseBatteryStapl";
    assert_eq!(s.len(), 24);
    assert_eq!(adjust_password_length(s, 24), s);
}

#[test]
fn passphrase_is_brought_to_key_length() {
    let key = adjust_password_length("CorrectHorse", 24);
    assert_eq!(key, "CorrectHorseCorrectHorse");
    assert_eq!(key.len(), 24);
    let key = adjust_password_length("hunter2", 24);
    assert_eq!(key, "hunter2hunter2hunter2hun");
}

#[test]
fn zero_length_gives_empty_text() {
    assert_eq!(adjust_password_length("abc", 0), "");
    assert_eq!(try_adjust_password_length("", 0), Some(String::new()));
}

#[test]
fn empty_input_cannot_be_repeated() {
    assert_eq!(try_adjust_password_length("", 5), None);
}

#[test]
fn cut_inside_a_character_is_refused() {
    // 'é' takes two bytes: one byte of it is no text.
    assert_eq!(try_adjust_password_length("é", 1), None);
    assert_eq!(try_adjust_password_length("aé", 2), None);
    assert_eq!(try_adjust_password_length("é", 4), Some("éé".to_string()));
    assert_eq!(try_adjust_password_length("aé", 3), Some("aé".to_string()));
}

#[test]
fn truncation_is_reported() {
    assert!(exceeds_length("abcdefghij", 5));
    assert!(!exceeds_length("abcde", 5));
    assert!(!exceeds_length("ab", 5));
    assert!(exceeds_length("é", 1));
}

#[test]
fn draws_select_allowed_characters() {
    assert_eq!(secret_from_draws(&[0, 6, 7, 93, 94, 95]), " &(~ !");
    assert_eq!(secret_from_draws(&[]), "");
    // 0x27, the apostrophe, is skipped: draw 6 is '&' and draw 7 is '('.
    assert_eq!(secret_from_draws(&[32]), "A");
    assert_eq!(secret_from_draws(&[188 + 33]), "B");
    assert_eq!(secret_from_draws(&[u32::MAX]), "J");
}

#[test]
fn random_secret_has_length_and_alphabet() {
    for size in [0usize, 1, 32, 100] {
        let s = rand_string(size);
        assert_eq!(s.chars().count(), size);
        for c in s.chars() {
            assert!(' ' <= c && c <= '~', "not printable: {:?}", c);
            assert_ne!(c, '\'');
        }
    }
}

#[test]
fn random_secrets_differ() {
    assert_ne!(rand_string(32), rand_string(32));
}
