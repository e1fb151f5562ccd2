use miniapm::text::{
    all_whitespace, append_str, char_is_ascii_digit, char_is_whitespace, chars_eq, chars_of,
    decimal_string, find, has_infix, has_prefix, matches_at, rfind, slice_of,
    split_lines, str_eq, string_of, trim,
};

fn chars(s: &str) -> Vec<char> {
    s.chars().collect()
}

#[test]
fn strings_and_characters_convert_both_ways() {
    for s in ["", "a", "héllo wörld", "日本語", "a\u{10ffff}b"] {
        assert_eq!(chars_of(s), chars(s));
        assert_eq!(string_of(&chars(s)), s);
    }
    assert!(str_eq("abc", "abc"));
    assert!(!str_eq("abc", "abd"));
    assert!(!str_eq("abc", "ab"));
    assert!(str_eq("", ""));
    assert!(chars_eq(&chars("x"), &chars("x")));
    assert!(!chars_eq(&chars("x"), &chars("")));
    assert_eq!(append_str("ab", "cd"), "abcd");
    assert_eq!(append_str("", ""), "");
}

#[test]
fn white_space_is_what_the_standard_library_says() {
    for code in 0u32..0x3100 {
        if let Some(c) = char::from_u32(code) {
            assert_eq!(char_is_whitespace(c), c.is_whitespace(), "code point {:x}", code);
            assert_eq!(char_is_ascii_digit(c), c.is_ascii_digit(), "code point {:x}", code);
        }
    }
    for c in ['\u{feff}', '\u{e000}', '\u{10ffff}', '\u{1d7ce}'] {
        assert_eq!(char_is_whitespace(c), c.is_whitespace());
        assert_eq!(char_is_ascii_digit(c), c.is_ascii_digit());
    }
    assert!(all_whitespace(&chars("")));
    assert!(all_whitespace(&chars(" \t\r\n\u{3000}")));
    assert!(!all_whitespace(&chars("  x ")));
}

#[test]
fn searching_agrees_with_the_standard_library() {
    let texts = ["", "a", "aa", "aaa", "abcabc", "xx:in y:in z", "://", "a://b/c", "ééé"];
    let patterns = ["", "a", "aa", "b", "bc", "abc", ":in ", "é", "://", "/", "abcabcabc"];
    for s in texts {
        for p in patterns {
            let (sv, pv) = (chars(s), chars(p));
            let char_index = |byte: usize| s[..byte].chars().count();
            assert_eq!(has_prefix(&sv, p), s.starts_with(p), "{:?} {:?}", s, p);
            assert_eq!(has_infix(&sv, p), s.contains(p), "{:?} {:?}", s, p);
            assert_eq!(find(&sv, &pv), s.find(p).map(char_index), "{:?} {:?}", s, p);
            assert_eq!(rfind(&sv, &pv), s.rfind(p).map(char_index), "{:?} {:?}", s, p);
        }
    }
    assert!(matches_at(&chars("abc"), &chars("bc"), 1));
    assert!(!matches_at(&chars("abc"), &chars("bc"), 2));
    assert!(!matches_at(&chars("abc"), &chars("bc"), usize::MAX));
    assert!(matches_at(&chars("abc"), &chars(""), 3));
    assert!(!matches_at(&chars("abc"), &chars(""), 4));
    assert_eq!(slice_of(&chars("hello"), 1, 3), chars("el"));
    assert_eq!(slice_of(&chars("hello"), 5, 5), chars(""));
}

#[test]
fn trimming_agrees_with_the_standard_library() {
    for s in ["", " ", "a", " a", "a ", "  a b  ", "\t\n x \r\n", "\u{a0}x\u{2003}", " \u{feff} "] {
        assert_eq!(string_of(&trim(&chars(s))), s.trim(), "{:?}", s);
    }
}

#[test]
fn lines_agree_with_the_standard_library() {
    for s in [
        "",
        "a",
        "a\n",
        "a\nb",
        "a\r\nb\r\n",
        "\n",
        "\n\n",
        "a\n\nb",
        "a\r",
        "a\rb\n",
        "\r\n",
        "a\r\r\nb",
        "x\n\r",
        "one\ntwo\nthree",
    ] {
        let expected: Vec<String> = s.lines().map(|l| l.to_string()).collect();
        assert_eq!(split_lines(s), expected, "{:?}", s);
    }
}

#[test]
fn decimal_text_of_numbers() {
    for v in [0i64, 1, 9, 10, 11, 99, 100, 101, 12345, -1, -10, i64::MAX, i64::MIN, i64::MIN + 1] {
        assert_eq!(decimal_string(v), v.to_string());
    }
}
