use ph_record::text::{
    chars_of, contains_char, contains_text, decimal, find, find_from, join, matches_at, split,
    split_once, starts_with_char,
};

fn owned(parts: &[&str]) -> Vec<String> {
    parts.iter().map(|s| s.to_string()).collect()
}

fn pair(a: &str, b: &str) -> Option<(String, String)> {
    Some((a.to_string(), b.to_string()))
}

#[test]
fn chars_of_gives_each_character() {
    assert_eq!(chars_of("a.b"), vec!['a', '.', 'b']);
    assert_eq!(chars_of(""), Vec::<char>::new());
    assert_eq!(chars_of("é+"), vec!['é', '+']);
}

#[test]
fn matches_at_tests_one_place() {
    let hay = chars_of("x._tel.y");
    let pat = chars_of("._tel.");
    assert!(matches_at(&hay, &pat, 1));
    assert!(!matches_at(&hay, &pat, 0));
    assert!(!matches_at(&hay, &pat, 2));
    assert!(!matches_at(&hay, &pat, 3));
    assert!(!matches_at(&hay, &pat, 100));
}

#[test]
fn matches_at_with_empty_pattern() {
    let hay = chars_of("ab");
    let pat = chars_of("");
    assert!(matches_at(&hay, &pat, 0));
    assert!(matches_at(&hay, &pat, 2));
    assert!(!matches_at(&hay, &pat, 3));
}

#[test]
fn find_gives_first_occurrence() {
    assert_eq!(find(&chars_of("a;b;c"), &chars_of(";")), Some(1));
    assert_eq!(find(&chars_of("abc"), &chars_of(";")), None);
    assert_eq!(find(&chars_of("aaab"), &chars_of("aab")), Some(1));
    assert_eq!(find(&chars_of("ab"), &chars_of("abc")), None);
    assert_eq!(find(&chars_of("abc"), &chars_of("")), Some(0));
    assert_eq!(find(&chars_of(""), &chars_of("")), Some(0));
    assert_eq!(find(&chars_of("abc"), &chars_of("abc")), Some(0));
    assert_eq!(find(&chars_of("xabc"), &chars_of("abc")), Some(1));
}

#[test]
fn find_from_skips_what_is_before() {
    let hay = chars_of("a;b;c");
    let pat = chars_of(";");
    assert_eq!(find_from(&hay, &pat, 0), Some(1));
    assert_eq!(find_from(&hay, &pat, 1), Some(1));
    assert_eq!(find_from(&hay, &pat, 2), Some(3));
    assert_eq!(find_from(&hay, &pat, 4), None);
    assert_eq!(find_from(&hay, &pat, 5), None);
}

#[test]
fn split_once_splits_at_first_occurrence() {
    assert_eq!(split_once("tel=+1-111;+1-222", "="), pair("tel", "+1-111;+1-222"));
    assert_eq!(split_once("a=b=c", "="), pair("a", "b=c"));
    assert_eq!(split_once("=b", "="), pair("", "b"));
    assert_eq!(split_once("a=", "="), pair("a", ""));
    assert_eq!(split_once("abc", "="), None);
    assert_eq!(split_once("", "="), None);
}

#[test]
fn split_once_with_long_pattern() {
    assert_eq!(
        split_once("12345.order._tel.modbay.net", "._tel."),
        pair("12345.order", "modbay.net")
    );
    assert_eq!(split_once("a._tel._tel.b", "._tel."), pair("a", "_tel.b"));
    assert_eq!(split_once("a._tel", "._tel."), None);
    assert_eq!(split_once("._tel.", "._tel."), pair("", ""));
}

#[test]
fn split_once_counts_characters_not_bytes() {
    assert_eq!(split_once("é=ü", "="), pair("é", "ü"));
    assert_eq!(split_once("日本._tel.例え.jp", "._tel."), pair("日本", "例え.jp"));
}

#[test]
fn split_once_agrees_with_std() {
    for s in ["", "=", "a=b", "==", "a==b", "no", "tel=1;2", "é=é=é"] {
        let expected = s.split_once('=').map(|(a, b)| (a.to_string(), b.to_string()));
        assert_eq!(split_once(s, "="), expected);
    }
}

#[test]
fn contains_char_finds_character() {
    assert!(contains_char("modbay.net", '.'));
    assert!(contains_char(".", '.'));
    assert!(!contains_char("+1-212-555-0101", '.'));
    assert!(!contains_char("", '.'));
    assert!(contains_char("日本.jp", '.'));
}

#[test]
fn starts_with_char_tests_first_character() {
    assert!(starts_with_char("+1", '+'));
    assert!(starts_with_char("+", '+'));
    assert!(!starts_with_char("1+", '+'));
    assert!(!starts_with_char("", '+'));
}

#[test]
fn split_gives_every_piece() {
    assert_eq!(split("+1-111;+1-222", ";"), owned(&["+1-111", "+1-222"]));
    assert_eq!(split("a;b;c", ";"), owned(&["a", "b", "c"]));
    assert_eq!(split("abc", ";"), owned(&["abc"]));
}

#[test]
fn split_keeps_empty_pieces() {
    assert_eq!(split("", ";"), owned(&[""]));
    assert_eq!(split(";", ";"), owned(&["", ""]));
    assert_eq!(split("a;", ";"), owned(&["a", ""]));
    assert_eq!(split(";a", ";"), owned(&["", "a"]));
    assert_eq!(split("a;;b", ";"), owned(&["a", "", "b"]));
}

#[test]
fn split_with_long_separator() {
    assert_eq!(split("a--b--c", "--"), owned(&["a", "b", "c"]));
    assert_eq!(split("a---b", "--"), owned(&["a", "-b"]));
    assert_eq!(split("----", "--"), owned(&["", "", ""]));
}

#[test]
fn split_with_empty_separator_splits_nothing() {
    assert_eq!(split("abc", ""), owned(&["abc"]));
    assert_eq!(split("", ""), owned(&[""]));
}

#[test]
fn split_agrees_with_std() {
    for s in ["", ";", "a", "a;b", ";;", "a;;b;", "+1-111;+1-222", "é;ü"] {
        let expected: Vec<String> = s.split(";").map(|p| p.to_string()).collect();
        assert_eq!(split(s, ";"), expected);
    }
}

#[test]
fn join_puts_separator_between() {
    assert_eq!(join(&owned(&["+1-111", "+1-222"]), ";"), "+1-111;+1-222");
    assert_eq!(join(&owned(&["a", "b", "c"]), ", "), "a, b, c");
    assert_eq!(join(&owned(&["a"]), ";"), "a");
    assert_eq!(join(&owned(&[]), ";"), "");
    assert_eq!(join(&owned(&["", ""]), ";"), ";");
    assert_eq!(join(&owned(&["a", "b"]), ""), "ab");
}

#[test]
fn join_inverts_split() {
    for s in ["", ";", "a", "a;b", ";;", "a;;b;", "+1-111;+1-222"] {
        assert_eq!(join(&split(s, ";"), ";"), s);
    }
}

#[test]
fn contains_text_finds_equal_text() {
    let numbers = owned(&["+1-111", "+1-222"]);
    assert!(contains_text(&numbers, "+1-111"));
    assert!(contains_text(&numbers, "+1-222"));
    assert!(!contains_text(&numbers, "+1-333"));
    assert!(!contains_text(&numbers, "+1-11"));
    assert!(!contains_text(&numbers, ""));
    assert!(!contains_text(&owned(&[]), "+1-111"));
    assert!(contains_text(&owned(&[""]), ""));
}

#[test]
fn decimal_writes_small_numbers() {
    assert_eq!(decimal(0), "0");
    assert_eq!(decimal(7), "7");
    assert_eq!(decimal(10), "10");
    assert_eq!(decimal(42), "42");
    assert_eq!(decimal(-8), "-8");
    assert_eq!(decimal(-10), "-10");
    assert_eq!(decimal(1234567890), "1234567890");
}

#[test]
fn decimal_writes_the_limits() {
    assert_eq!(decimal(i32::MAX), "2147483647");
    assert_eq!(decimal(i32::MIN), "-2147483648");
}

#[test]
fn decimal_agrees_with_std() {
    for n in [-1000001, -999, -100, -99, -1, 0, 1, 9, 10, 11, 99, 100, 101, 65535, 1000000] {
        assert_eq!(decimal(n), n.to_string());
    }
}
