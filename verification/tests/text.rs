use modulo::text::{chars_of, is_whitespace, seq_contains, split_words, str_eq, trim_range};

fn chars(s: &str) -> Vec<char> {
    s.chars().collect()
}

#[test]
fn whitespace_set() {
    for c in [' ', '\t', '\n', '\r', '\u{b}', '\u{c}', '\u{85}', '\u{a0}', '\u{1680}', '\u{2000}', '\u{200a}', '\u{2028}', '\u{2029}', '\u{202f}', '\u{205f}', '\u{3000}'] {
        assert!(is_whitespace(c), "{:?}", c);
    }
    for c in ['a', '\u{200b}', '\u{feff}', '_', '\u{0}'] {
        assert!(!is_whitespace(c), "{:?}", c);
    }
    for c in (0u32..0x3100).filter_map(char::from_u32) {
        assert_eq!(is_whitespace(c), c.is_whitespace(), "{:?}", c);
    }
}

#[test]
fn trimming() {
    let v = chars("  ab c \t");
    assert_eq!(trim_range(&v, 0, v.len()), (2, 6));
    assert_eq!(trim_range(&v, 3, 5), (3, 3 + 1));
    let w = chars("   ");
    let (x, y) = trim_range(&w, 0, 3);
    assert_eq!(x, y);
}

#[test]
fn substrings_and_words() {
    assert!(seq_contains(&chars("hello"), &chars("ell")));
    assert!(seq_contains(&chars("hello"), &chars("")));
    assert!(seq_contains(&chars(""), &chars("")));
    assert!(!seq_contains(&chars("hel"), &chars("hello")));
    assert!(!seq_contains(&chars("hello"), &chars("lo!")));
    assert_eq!(split_words(&chars("  a bc\td\u{3000}e  ")), vec![chars("a"), chars("bc"), chars("d"), chars("e")]);
    assert!(split_words(&chars(" \n ")).is_empty());
    assert_eq!(chars_of("héllo"), chars("héllo"));
    assert!(str_eq("abc", "abc"));
    assert!(!str_eq("abc", "abd"));
    assert!(!str_eq("abc", "ab"));
}
