use ply_header::{
    HeaderError, Words, ensure_empty, ensure_empty_iter, next_word_or_err, parse_u64,
    trim_line_endings,
};

#[test]
fn test_ensure_empty_iter() {
    let mut iter = Words::new(" abc 123  \n ");
    assert!(ensure_empty_iter(&mut iter, "").is_err());
    assert!(ensure_empty_iter(&mut iter, "").is_err());
    assert!(ensure_empty_iter(&mut iter, "").is_ok());
}

#[test]
fn test_ensure_empty() {
    assert!(ensure_empty("", "").is_ok());
    assert!(ensure_empty(" \t\r\n\n\r\t ", "").is_ok());
    assert!(ensure_empty("abc", "").is_err());
    assert!(ensure_empty("abc\n", "").is_err());
    assert!(ensure_empty("abc \n", "").is_err());
}

#[test]
fn test_trim_line_endings() {
    assert_eq!(trim_line_endings(""), "");
    assert_eq!(trim_line_endings("\n"), "");
    assert_eq!(trim_line_endings("\r"), "");
    assert_eq!(trim_line_endings("\n\r"), "");
    assert_eq!(trim_line_endings("\r\n"), "");
    assert_eq!(trim_line_endings("\n\n\r\r"), "");
    assert_eq!(trim_line_endings("\r\r\n\n"), "");
    assert_eq!(trim_line_endings("\r\n\r\n"), "");
    assert_eq!(trim_line_endings(" \r\n"), " ");
    assert_eq!(trim_line_endings("\t\r\n"), "\t");
    assert_eq!(trim_line_endings("abc \t\t  \r\n"), "abc \t\t  ");
    assert_eq!(trim_line_endings("abc \t\t  "), "abc \t\t  ");
    assert_eq!(trim_line_endings("abc"), "abc");
}

#[test]
fn test_next_word_or_err() {
    assert!(next_word_or_err(&mut Words::new(""), "").is_err());
    assert_eq!(next_word_or_err(&mut Words::new("abc"), ""), Ok("abc"));
}

#[test]
fn trim_is_idempotent_on_samples() {
    for s in ["", "abc\r\n", "abc\n\r\r\n", "\r\n\r\n", " x \t\n", "a\nb\r"] {
        let once = trim_line_endings(s);
        assert_eq!(trim_line_endings(once), once);
    }
}

#[test]
fn trim_removes_any_mix_of_line_endings() {
    assert_eq!(trim_line_endings("abc\r\n"), "abc");
    assert_eq!(trim_line_endings("abc\n\r\r\n"), "abc");
    assert_eq!(trim_line_endings("\r\n\r\n"), "");
    assert_eq!(trim_line_endings("a\nb\r"), "a\nb");
}

#[test]
fn ensure_empty_accepts_blank_for_any_keyword() {
    for k in ["", "ply", "end_header", "format"] {
        assert!(ensure_empty("", k).is_ok());
        assert!(ensure_empty("   \t  ", k).is_ok());
        assert!(ensure_empty("x", k).is_err());
        assert!(ensure_empty("x ", k).is_err());
    }
}

#[test]
fn ensure_empty_names_keyword_and_extra_word() {
    assert_eq!(
        ensure_empty("  extra more\n", "end_header"),
        Err(HeaderError::ExtraCharacters("end_header".to_string(), "extra".to_string()))
    );
}

#[test]
fn words_split_on_ascii_whitespace() {
    let mut w = Words::new("\t a\x0Cbb  c\r\n");
    assert_eq!(w.next_word(), Some("a"));
    assert_eq!(w.next_word(), Some("bb"));
    assert_eq!(w.next_word(), Some("c"));
    assert_eq!(w.next_word(), None);
    assert_eq!(w.next_word(), None);
}

#[test]
fn next_word_or_err_hands_back_the_error() {
    assert_eq!(next_word_or_err(&mut Words::new("  "), 7u8), Err(7u8));
}

#[test]
fn parse_u64_reads_decimal() {
    assert_eq!(parse_u64("0"), Some(0));
    assert_eq!(parse_u64("8"), Some(8));
    assert_eq!(parse_u64("+42"), Some(42));
    assert_eq!(parse_u64("18446744073709551615"), Some(u64::MAX));
    assert_eq!(parse_u64("18446744073709551616"), None);
    assert_eq!(parse_u64(""), None);
    assert_eq!(parse_u64("+"), None);
    assert_eq!(parse_u64("-1"), None);
    assert_eq!(parse_u64("eight"), None);
    assert_eq!(parse_u64("12a"), None);
}
