use givme::models::enums::ErrorType;
use givme::services::padding::{pad_plaintext, recover_plaintext};
use givme::utils::encoding::{decode_bytes, decode_text};

#[test]
fn empty_text_takes_one_block() {
    assert_eq!(pad_plaintext(""), vec![0u8; 16]);
}

#[test]
fn short_text_is_filled_with_nul() {
    let mut expected = b"abc".to_vec();
    expected.extend_from_slice(&[0u8; 13]);
    assert_eq!(pad_plaintext("abc"), expected);
}

#[test]
fn whole_block_is_not_extended() {
    assert_eq!(pad_plaintext("0123456789abcdef"), b"0123456789abcdef".to_vec());
}

#[test]
fn seventeen_characters_take_two_blocks() {
    let buffer = pad_plaintext("0123456789abcdefg");
    assert_eq!(buffer.len(), 32);
    assert_eq!(&buffer[..17], b"0123456789abcdefg");
    assert_eq!(&buffer[17..], &[0u8; 15]);
}

#[test]
fn buffer_is_sized_by_characters() {
    // One character of two bytes: one block, fourteen NUL bytes.
    let buffer = pad_plaintext("é");
    assert_eq!(buffer.len(), 16);
    assert_eq!(&buffer[..2], "é".as_bytes());
    assert_eq!(&buffer[2..], &[0u8; 14]);
    // Sixteen characters of two bytes each: one block, which holds eight.
    let long = "éééééééééééééééé";
    assert_eq!(long.chars().count(), 16);
    assert_eq!(pad_plaintext(long), "éééééééé".as_bytes().to_vec());
}

#[test]
fn padding_is_taken_off_again() {
    for text in ["", "a", "abc", "0123456789abcdef", "0123456789abcdefg", "s3cr3t", "é"] {
        let buffer = pad_plaintext(text);
        assert_eq!(recover_plaintext(&buffer).unwrap(), text);
    }
}

#[test]
fn only_trailing_nul_is_stripped() {
    assert_eq!(recover_plaintext(b"\0ab\0c\0\0").unwrap(), "\0ab\0c");
    assert_eq!(recover_plaintext(&[0u8; 16]).unwrap(), "");
    assert_eq!(recover_plaintext(&[]).unwrap(), "");
}

#[test]
fn text_ending_in_nul_loses_it() {
    let buffer = pad_plaintext("a\0");
    assert_eq!(recover_plaintext(&buffer).unwrap(), "a");
}

#[test]
fn invalid_utf8_is_refused() {
    let e = recover_plaintext(&[0xff, 0x00, 0x00]).unwrap_err();
    assert_eq!(e.err_type(), ErrorType::InvalidEncoding);
    let e = recover_plaintext(&[b'a', 0xc3]).unwrap_err();
    assert_eq!(e.err_type(), ErrorType::InvalidEncoding);
    // An unfinished character before the padding is invalid too.
    let e = recover_plaintext(&[b'a', 0xc3, 0, 0]).unwrap_err();
    assert_eq!(e.err_type(), ErrorType::InvalidEncoding);
}

#[test]
fn base64_text_is_read_back() {
    assert_eq!(decode_text("aGVsbG8gd29ybGQ=").unwrap(), b"hello world".to_vec());
    assert_eq!(decode_bytes(b"+/8=").unwrap(), vec![0xfb, 0xff]);
    assert_eq!(decode_text("").unwrap(), Vec::<u8>::new());
}

#[test]
fn text_that_is_not_base64_is_refused() {
    assert_eq!(decode_text("not base64!").unwrap_err().err_type(), ErrorType::InvalidEncoding);
    assert_eq!(decode_text("aGVsbG8==").unwrap_err().err_type(), ErrorType::InvalidEncoding);
    assert_eq!(decode_text("a").unwrap_err().err_type(), ErrorType::InvalidEncoding);
    assert_eq!(decode_bytes(b"a b=").unwrap_err().err_type(), ErrorType::InvalidEncoding);
}
