use decc::{check_format, deccify_srt_contents, DeccError, Pattern, DEFAULT_PATTERN};

fn default_pattern() -> Pattern {
    Pattern::new(DEFAULT_PATTERN).unwrap()
}

#[test]
fn srt_extension_is_accepted() {
    assert_eq!(check_format("movie.srt"), Ok(()));
    assert_eq!(check_format("dir/movie.en.srt"), Ok(()));
}

#[test]
fn other_extensions_are_unsupported() {
    for path in ["movie.txt", "movie.SRT", "srt", "movie", ".srt", "dir/.srt", "movie.srt.bak"] {
        assert_eq!(check_format(path), Err(DeccError::UnsupportedFormat), "{}", path);
    }
}

#[test]
fn srt_contents_are_rewritten() {
    let input = "1\n00:00:01,000 --> 00:00:02,000\n[door slams]\n\n\
                 2\n00:00:03,000 --> 00:00:04,500\nHello[x] there\n(laughs) friend\n\n\
                 3\n00:01:00,250 --> 00:01:02,000\n(???)\n";
    let out = deccify_srt_contents(input.as_bytes(), None, false, &default_pattern()).unwrap();
    assert_eq!(out, "2\n00:00:03,000 --> 00:00:04,500\nHello there\n friend");
}

#[test]
fn crlf_and_bom_input_is_accepted() {
    let mut bytes = vec![0xEF, 0xBB, 0xBF];
    bytes.extend_from_slice(b"1\r\n00:00:01,000 --> 00:00:02,000\r\nHi [x]you\r\n");
    let out = deccify_srt_contents(&bytes, None, false, &default_pattern()).unwrap();
    assert_eq!(out, "1\n00:00:01,000 --> 00:00:02,000\nHi you\n");
}

#[test]
fn invalid_srt_is_a_parse_error() {
    let out = deccify_srt_contents(b"not a subtitle file", None, false, &default_pattern());
    assert_eq!(out, Err(DeccError::ParseError));
}

#[test]
fn decoding_errors_stop_the_pipeline() {
    let bytes = [0xFF, 0xFE, b'1', 0];
    let out = deccify_srt_contents(&bytes, Some("utf-8"), false, &default_pattern());
    assert!(matches!(out, Err(DeccError::EncodingMismatch { .. })));
    let bad = [b'1', b'\n', 0xFF];
    let out = deccify_srt_contents(&bad, None, false, &default_pattern());
    assert!(matches!(out, Err(DeccError::MalformedInput { .. })));
}
