// Strings: order, folding, trimming, searching, numbers.

use dow_sentiment_analyzer::text::{
    bytes_eq, bytes_lt, concat2, contains_chars, decimal_string, digit_str, eq_ignore_ascii_case,
    fold_text, insert_sorted, lower_byte, lower_chars, replace_chars, sort_dedup, str_eq, str_lt,
    to_lower_char, to_upper_char, trim_chars, upper_chars,
};

fn chars(s: &str) -> Vec<char> {
    s.chars().collect()
}

fn text(v: Vec<char>) -> String {
    v.into_iter().collect()
}

#[test]
fn strings_are_compared_by_their_bytes() {
    assert!(str_eq("", ""));
    assert!(str_eq("dow", "dow"));
    assert!(!str_eq("dow", "Dow"));
    assert!(!str_eq("dow", "dow "));
    assert!(str_eq("č", "č"));
    assert!(bytes_eq(b"ab", b"ab"));
    assert!(!bytes_eq(b"ab", b"ac"));
    assert!(!bytes_eq(b"ab", b"a"));
}

#[test]
fn order_is_that_of_str() {
    let words = ["", "a", "A", "ab", "b", "Z", "z", "é", "zz", "a b", "10", "9"];
    for a in words.iter() {
        for b in words.iter() {
            assert_eq!(str_lt(a, b), a < b, "{a:?} < {b:?}");
            assert_eq!(bytes_lt(a.as_bytes(), b.as_bytes()), a.as_bytes() < b.as_bytes());
        }
    }
}

#[test]
fn sort_dedup_is_sort_then_dedup() {
    let items: Vec<String> =
        ["pear", "Apple", "fig", "pear", "", "apple", "fig", "Fig"].iter().map(|s| s.to_string()).collect();
    let mut expected = items.clone();
    expected.sort();
    expected.dedup();
    assert_eq!(sort_dedup(items), expected);
    assert_eq!(sort_dedup(Vec::new()), Vec::<String>::new());

    let mut v = vec!["b".to_string(), "d".to_string()];
    insert_sorted(&mut v, "c".to_string());
    insert_sorted(&mut v, "a".to_string());
    insert_sorted(&mut v, "e".to_string());
    insert_sorted(&mut v, "c".to_string());
    assert_eq!(v, vec!["a", "b", "c", "d", "e"]);
}

#[test]
fn case_folding_touches_ascii_letters_only() {
    assert_eq!(to_lower_char('A'), 'a');
    assert_eq!(to_lower_char('Z'), 'z');
    assert_eq!(to_lower_char('a'), 'a');
    assert_eq!(to_lower_char('['), '[');
    assert_eq!(to_lower_char('@'), '@');
    assert_eq!(to_lower_char('É'), 'É');
    assert_eq!(to_upper_char('a'), 'A');
    assert_eq!(to_upper_char('z'), 'Z');
    assert_eq!(to_upper_char('{'), '{');
    assert_eq!(to_upper_char('`'), '`');
    assert_eq!(to_upper_char('é'), 'é');
    assert_eq!(lower_byte(b'Q'), b'q');
    assert_eq!(lower_byte(b'1'), b'1');
    assert_eq!(text(lower_chars(&chars("MiXed É 1"))), "MiXed É 1".to_ascii_lowercase());
    assert_eq!(text(upper_chars(&chars("MiXed é 1"))), "MiXed é 1".to_ascii_uppercase());
    assert!(eq_ignore_ascii_case("Reuters", "rEUTERS"));
    assert!(!eq_ignore_ascii_case("Reuters", "Reuter"));
    assert!(!eq_ignore_ascii_case("é", "É"));
    assert!(eq_ignore_ascii_case("", ""));
    assert!(!eq_ignore_ascii_case("a[", "a{"));
}

#[test]
fn trim_removes_whitespace_at_both_ends() {
    for s in ["", "  ", " a ", "\t\na b\r\n", "a", "\u{00A0}x\u{2003}", " \u{000B}x\u{000C} "].iter() {
        assert_eq!(text(trim_chars(&chars(s))), s.trim(), "{s:?}");
    }
}

#[test]
fn fold_lowers_and_collapses_whitespace() {
    assert_eq!(text(fold_text("  POLICY   EASING\tconfirmed ")), "policy easing confirmed");
    assert_eq!(text(fold_text("")), "");
    assert_eq!(text(fold_text(" \n ")), "");
    assert_eq!(text(fold_text("A\u{00A0}\u{00A0}B")), "a b");
    assert_eq!(text(fold_text("x")), "x");
}

#[test]
fn contains_finds_a_text_in_another() {
    assert!(contains_chars(&chars("rate cut today"), &chars("cut")));
    assert!(contains_chars(&chars("rate cut today"), &chars("rate cut today")));
    assert!(contains_chars(&chars("rate cut today"), &chars("")));
    assert!(contains_chars(&chars(""), &chars("")));
    assert!(!contains_chars(&chars(""), &chars("a")));
    assert!(!contains_chars(&chars("rate cut"), &chars("cuts")));
    assert!(contains_chars(&chars("aab"), &chars("ab")));
    assert!(contains_chars(&chars("today"), &chars("y")));
}

#[test]
fn replace_goes_from_the_left_without_overlap() {
    let r = |hay: &str, needle: &str, with: &str| text(replace_chars(&chars(hay), &chars(needle), &chars(with)));
    for (hay, needle, with) in [
        ("a&nbsp;b&nbsp;", "&nbsp;", " "),
        ("aaaa", "aa", "b"),
        ("aaa", "aa", "b"),
        ("abc", "x", "y"),
        ("abc", "abc", ""),
        ("abc", "abcd", "z"),
        ("", "a", "b"),
        ("ababab", "ab", "abab"),
        ("xay", "a", "aa"),
    ] {
        assert_eq!(r(hay, needle, with), hay.replace(needle, with), "{hay:?} {needle:?} {with:?}");
    }
    // the empty needle occurs nowhere
    assert_eq!(r("abc", "", "-"), "abc");
}

#[test]
fn numbers_are_written_in_decimal() {
    for n in [0u64, 1, 9, 10, 11, 99, 100, 1234567890, u64::MAX] {
        assert_eq!(decimal_string(n), n.to_string());
    }
    for d in 0..10u64 {
        assert_eq!(digit_str(d), d.to_string());
    }
    assert_eq!(concat2("ab", "cd"), "abcd");
    assert_eq!(concat2("", ""), "");
}
