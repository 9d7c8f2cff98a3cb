use lacon_rust_parser::text::{
    find_char, has_prefix, has_suffix, is_whitespace_char, lowercase_is, matches_at,
    replace_chars, split_into_lines, to_chars, to_text, trim_chars, trim_trailing_commas_chars,
    unquote_chars,
};
use lacon_rust_parser::Dictionary;
use lacon_rust_parser::LaCoNValue;

fn chars(s: &str) -> Vec<char> {
    s.chars().collect()
}

fn lines(s: &str) -> Vec<String> {
    split_into_lines(&chars(s)).iter().map(|line| line.iter().collect()).collect()
}

#[test]
fn characters_and_back() {
    for s in ["", "abc", "\u{e9}t\u{e9}", "a\nb", "\u{1F600}"] {
        assert_eq!(to_chars(s), chars(s));
        assert_eq!(to_text(&chars(s)), s);
    }
}

#[test]
fn whitespace_is_what_the_standard_library_calls_whitespace() {
    for code in 0..=0x3100u32 {
        if let Some(c) = char::from_u32(code) {
            assert_eq!(is_whitespace_char(c), c.is_whitespace(), "U+{code:04X}");
        }
    }
    assert!(!is_whitespace_char('\u{FEFF}'));
}

#[test]
fn trim_agrees_with_the_standard_library() {
    for s in ["", " ", "a", "  a  ", "\t\na b\r\n", "\u{a0}x\u{3000}", " \u{2003} ", "a ", " a"] {
        assert_eq!(to_text(&trim_chars(&chars(s))), s.trim(), "{s:?}");
    }
}

#[test]
fn lines_agree_with_the_standard_library() {
    for s in [
        "", "\n", "a", "a\n", "a\nb", "a\r\nb\r\n", "a\n\nb", "\n\n", "a\rb", "a\r", "\r\n",
        "a\r\r\nb", "a\n\r", "\ra",
    ] {
        let expected: Vec<String> = s.lines().map(|line| line.to_string()).collect();
        assert_eq!(lines(s), expected, "{s:?}");
    }
}

#[test]
fn replace_agrees_with_the_standard_library() {
    for (text, target, with) in [
        ("a$b$b", "$b", "x"),
        ("aaa", "aa", "b"),
        ("abc", "abc", ""),
        ("abc", "d", "x"),
        ("", "a", "b"),
        ("$a$a", "$a", "$a$a"),
        ("xyz", "z", "zz"),
    ] {
        assert_eq!(
            to_text(&replace_chars(&chars(text), &chars(target), &chars(with))),
            text.replace(target, with)
        );
    }
    assert_eq!(to_text(&replace_chars(&chars("abc"), &chars(""), &chars("x"))), "abc");
}

#[test]
fn prefixes_suffixes_and_searches() {
    assert!(has_prefix(&chars("@import x"), &chars("@import")));
    assert!(!has_prefix(&chars("@imp"), &chars("@import")));
    assert!(has_prefix(&chars("abc"), &chars("")));
    assert!(has_suffix(&chars("12px"), &chars("px")));
    assert!(!has_suffix(&chars("x"), &chars("px")));
    assert!(matches_at(&chars("abcd"), &chars("bc"), 1));
    assert!(!matches_at(&chars("abcd"), &chars("bc"), 2));
    assert!(!matches_at(&chars("abcd"), &chars("d"), 4));
    assert!(!matches_at(&chars("abcd"), &chars("d"), 9));
    assert_eq!(find_char(&chars("a=b=c"), '=', 0), 1);
    assert_eq!(find_char(&chars("a=b=c"), '=', 2), 3);
    assert_eq!(find_char(&chars("abc"), '=', 0), 3);
}

#[test]
fn quotes_commas_and_case() {
    assert_eq!(to_text(&unquote_chars(&chars("\"a\""))), "a");
    assert_eq!(to_text(&unquote_chars(&chars("\""))), "\"");
    assert_eq!(to_text(&trim_trailing_commas_chars(&chars("a,b,,,"))), "a,b");
    assert_eq!(to_text(&trim_trailing_commas_chars(&chars(",,"))), "");
    assert!(lowercase_is(&chars("AuTo"), &chars("auto")));
    assert!(!lowercase_is(&chars("autos"), &chars("auto")));
    assert!(!lowercase_is(&chars("\u{212A}"), &chars("k")));
}

#[test]
fn dictionary_keeps_first_arrival_order() {
    let mut dict = Dictionary::new();
    assert!(dict.is_empty());
    dict.insert("b".to_string(), LaCoNValue::Int(1));
    dict.insert("a".to_string(), LaCoNValue::Int(2));
    dict.insert("b".to_string(), LaCoNValue::Int(3));
    assert_eq!(dict.len(), 2);
    assert_eq!(dict.key_at(0), "b");
    assert_eq!(dict.value_at(0), &LaCoNValue::Int(3));
    assert_eq!(dict.key_at(1), "a");
    assert!(dict.contains_key("a"));
    assert!(!dict.contains_key("c"));
    assert_eq!(dict.get("c"), None);
    let mut other = Dictionary::new();
    other.insert("c".to_string(), LaCoNValue::Auto);
    other.insert("a".to_string(), LaCoNValue::Nothing);
    dict.merge(other);
    assert_eq!(dict.len(), 3);
    assert_eq!(dict.get("a"), Some(&LaCoNValue::Nothing));
    assert_eq!(dict.key_at(2), "c");
    assert_eq!(dict.clone(), dict);
    assert_eq!(LaCoNValue::Dictionary(dict.clone()).as_dict(), Some(&dict));
}
