use little_shader_display::text::{chars_of, ends_with_chars, is_white_space_char, split_chars, string_from_chars, trim_chars};

fn chars(s: &str) -> Vec<char> {
    s.chars().collect()
}

#[test]
fn trim_matches_std() {
    for s in ["", "  ", " a b ", "\u{3000}x\u{85}", "\u{200B}y", "z\r\n"] {
        let t = trim_chars(&chars(s));
        assert_eq!(string_from_chars(&t), s.trim());
    }
}

#[test]
fn whitespace_matches_std() {
    for c in ['\t', '\n', '\u{0B}', '\u{0C}', '\r', ' ', '\u{85}', '\u{A0}', '\u{1680}', '\u{2000}', '\u{200A}', '\u{2028}', '\u{2029}', '\u{202F}', '\u{205F}', '\u{3000}', 'a', '\u{200B}', '\u{180E}', '\u{FEFF}', '0'] {
        assert_eq!(is_white_space_char(c), c.is_whitespace(), "{:?}", c);
    }
}

#[test]
fn split_matches_std() {
    for s in ["", ",", "a,b", "a,,b,", ",x"] {
        let pieces: Vec<String> = split_chars(&chars(s), ',').iter().map(|p| string_from_chars(p)).collect();
        let expected: Vec<String> = s.split(',').map(|p| p.to_string()).collect();
        assert_eq!(pieces, expected);
    }
}

#[test]
fn chars_and_suffixes() {
    assert_eq!(chars_of("héllo"), chars("héllo"));
    assert!(ends_with_chars(&chars("a.vert"), &chars(".vert")));
    assert!(!ends_with_chars(&chars("vert"), &chars(".vert")));
    assert!(ends_with_chars(&chars("x"), &chars("")));
}
