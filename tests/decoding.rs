use decc::{read_file_with_encoding, DeccError};

fn mismatch(requested: &str, actual: &str) -> DeccError {
    DeccError::EncodingMismatch { requested: requested.to_string(), actual: actual.to_string() }
}

#[test]
fn utf8_without_bom_auto_equals_utf8_label() {
    let bytes = "Héllo wörld".as_bytes();
    let auto = read_file_with_encoding(bytes, None, false).unwrap();
    let labelled = read_file_with_encoding(bytes, Some("utf-8"), false).unwrap();
    assert_eq!(auto, "Héllo wörld");
    assert_eq!(auto, labelled);
}

#[test]
fn utf16le_bom_with_utf8_label_is_mismatch_in_strict_mode() {
    let bytes = [0xFF, 0xFE, b'H', 0, b'i', 0];
    assert_eq!(
        read_file_with_encoding(&bytes, Some("utf-8"), false),
        Err(mismatch("UTF-8", "UTF-16LE"))
    );
}

#[test]
fn utf16le_bom_with_utf8_label_is_decoded_when_forced() {
    let bytes = [0xFF, 0xFE, b'H', 0, b'i', 0];
    assert_eq!(read_file_with_encoding(&bytes, Some("utf-8"), true), Ok("Hi".to_string()));
}

#[test]
fn bom_is_followed_without_a_label() {
    let le = [0xFF, 0xFE, b'o', 0, b'k', 0];
    let be = [0xFE, 0xFF, 0, b'o', 0, b'k'];
    let utf8 = [0xEF, 0xBB, 0xBF, b'o', b'k'];
    assert_eq!(read_file_with_encoding(&le, None, false), Ok("ok".to_string()));
    assert_eq!(read_file_with_encoding(&be, None, false), Ok("ok".to_string()));
    assert_eq!(read_file_with_encoding(&utf8, None, false), Ok("ok".to_string()));
}

#[test]
fn matching_bom_and_label_is_accepted() {
    let be = [0xFE, 0xFF, 0, b'o', 0, b'k'];
    assert_eq!(read_file_with_encoding(&be, Some(" UTF-16BE "), false), Ok("ok".to_string()));
}

#[test]
fn malformed_utf8_is_rejected_in_strict_mode() {
    let bytes = [b'A', 0xFF, b'B'];
    assert_eq!(
        read_file_with_encoding(&bytes, None, false),
        Err(DeccError::MalformedInput { encoding: "UTF-8".to_string() })
    );
}

#[test]
fn malformed_utf8_is_replaced_when_forced() {
    let bytes = [b'A', 0xFF, b'B'];
    assert_eq!(read_file_with_encoding(&bytes, None, true), Ok("A\u{FFFD}B".to_string()));
}

#[test]
fn legacy_label_is_used() {
    let bytes = [b'c', b'a', b'f', 0xE9];
    assert_eq!(read_file_with_encoding(&bytes, Some("latin1"), false), Ok("café".to_string()));
}

#[test]
fn unknown_label_falls_back_to_utf8() {
    let bytes = "plain".as_bytes();
    assert_eq!(read_file_with_encoding(bytes, Some("no-such-encoding"), false), Ok("plain".to_string()));
    let le = [0xFF, 0xFE, b'o', 0, b'k', 0];
    assert_eq!(read_file_with_encoding(&le, Some("no-such-encoding"), false), Ok("ok".to_string()));
}

#[test]
fn empty_input_decodes_to_empty_text() {
    assert_eq!(read_file_with_encoding(&[], None, false), Ok(String::new()));
}
