use minote::jar::CookieSet;
use minote::text::{
    chars_of, contains, decimal_chars, find_stop, is_space_char, join, matches_ignoring_case, rank,
    replace, signed_decimal_chars, string_of, trimmed, Rank,
};

fn chars(s: &str) -> Vec<char> {
    s.chars().collect()
}

fn text(v: Vec<char>) -> String {
    v.into_iter().collect()
}

#[test]
fn strings_and_characters_convert_both_ways() {
    for s in ["", "a", "héllo wörld", "日本語\u{10000}", "a=b; c"] {
        assert_eq!(chars_of(s), chars(s));
        assert_eq!(string_of(&chars(s)), s);
    }
}

#[test]
fn white_space_is_that_of_unicode() {
    for code in 0u32..=0x3100 {
        if let Some(c) = char::from_u32(code) {
            assert_eq!(is_space_char(c), c.is_whitespace(), "U+{code:04X}");
        }
    }
    assert!(!is_space_char('\u{feff}'));
    assert!(!is_space_char('\u{200b}'));
    assert!(!is_space_char('\u{10ffff}'));
}

#[test]
fn trimming_agrees_with_the_standard_library() {
    for s in ["", " ", "  a  ", "\t\na b\r\n", "\u{3000}x\u{a0}", "x", " \u{85} ", "a \u{2003}"] {
        let v = chars(s);
        assert_eq!(text(trimmed(&v, 0, v.len())), s.trim(), "{s:?}");
    }
    let v = chars("ab  cd  ef");
    assert_eq!(text(trimmed(&v, 2, 8)), "cd");
    assert_eq!(text(trimmed(&v, 3, 3)), "");
}

#[test]
fn order_is_that_of_strings() {
    let words = ["", "a", "A", "ab", "b", "ä", "a\u{10000}", "日", "ab ", "aB"];
    for a in words {
        for b in words {
            let expected = match a.cmp(b) {
                std::cmp::Ordering::Less => Rank::Before,
                std::cmp::Ordering::Equal => Rank::Same,
                std::cmp::Ordering::Greater => Rank::After,
            };
            assert_eq!(rank(&chars(a), &chars(b)), expected, "{a:?} {b:?}");
        }
    }
}

#[test]
fn stops_are_found_within_the_range() {
    let v = chars("ab;cd,ef");
    assert_eq!(find_stop(&v, 0, v.len(), ';', ','), 2);
    assert_eq!(find_stop(&v, 3, v.len(), ';', ','), 5);
    assert_eq!(find_stop(&v, 3, v.len(), ';', ';'), 8);
    assert_eq!(find_stop(&v, 0, 2, ';', ','), 2);
    assert_eq!(find_stop(&v, 2, 2, ';', ','), 2);
}

#[test]
fn numerals_are_decimal() {
    assert_eq!(text(decimal_chars(0)), "0");
    assert_eq!(text(decimal_chars(9)), "9");
    assert_eq!(text(decimal_chars(10)), "10");
    assert_eq!(text(decimal_chars(1234567890)), "1234567890");
    assert_eq!(text(decimal_chars(u128::MAX)), u128::MAX.to_string());
    assert_eq!(text(signed_decimal_chars(-1)), "-1");
    assert_eq!(text(signed_decimal_chars(0)), "0");
    assert_eq!(text(signed_decimal_chars(i64::MIN)), i64::MIN.to_string());
    assert_eq!(text(signed_decimal_chars(i64::MAX)), i64::MAX.to_string());
}

#[test]
fn search_and_replace_agree_with_the_standard_library() {
    let cases = [
        ("", "a", "b"),
        ("aaa", "aa", "b"),
        ("abcabc", "bc", ""),
        ("a&amp;b&amp;", "&amp;", "&"),
        ("xyz", "xyz", "longer than before"),
        ("xyz", "xyzz", "q"),
        ("ababab", "aba", "-"),
        ("héllo", "é", "e"),
    ];
    for (s, from, to) in cases {
        assert_eq!(text(replace(&chars(s), &chars(from), &chars(to))), s.replace(from, to));
        assert_eq!(contains(&chars(s), &chars(from)), s.contains(from));
    }
    assert_eq!(text(replace(&chars("abc"), &chars(""), &chars("x"))), "abc");
    assert!(contains(&chars("abc"), &chars("")));
    assert!(contains(&chars(""), &chars("")));
}

#[test]
fn joining_puts_the_separator_between() {
    let parts = vec!["a".to_string(), "".to_string(), "b".to_string()];
    assert_eq!(text(join(&parts, "; ")), "a; ; b");
    assert_eq!(text(join(&vec!["only".to_string()], "; ")), "only");
    assert_eq!(text(join(&Vec::new(), "; ")), "");
}

#[test]
fn names_match_whatever_the_case_of_ascii_letters() {
    assert!(matches_ignoring_case(&chars("HttpOnly"), "httponly"));
    assert!(matches_ignoring_case(&chars("max-age"), "MAX-AGE"));
    assert!(!matches_ignoring_case(&chars("path "), "path"));
    assert!(!matches_ignoring_case(&chars("ÄB"), "äb"));
    assert!(!matches_ignoring_case(&chars("@"), "`"));
    assert!(!matches_ignoring_case(&chars("["), "{"));
}

#[test]
fn cookie_set_keeps_one_value_for_each_name() {
    let mut set = CookieSet::new();
    assert_eq!(text(set.render()), "");
    set.insert(chars("b"), chars("1"));
    set.insert(chars("a"), chars("2"));
    set.insert(chars("c"), chars("3"));
    set.insert(chars("b"), chars("4"));
    set.insert(chars(""), chars(""));
    assert_eq!(text(set.render()), "=; a=2; b=4; c=3");
}
