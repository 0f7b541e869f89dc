use knightrs::decimal::number_to_text;
use knightrs::decimal::text_to_number;
use knightrs::rcstring::is_valid_char;
use knightrs::rcstring::validate_string;
use knightrs::InvalidChar;
use knightrs::RcString;

fn text(source: &str) -> RcString {
    RcString::new(source).unwrap()
}

#[test]
fn valid_chars_are_printable_ascii_and_three_controls() {
    assert!(is_valid_char('\r'));
    assert!(is_valid_char('\n'));
    assert!(is_valid_char('\t'));
    assert!(is_valid_char(' '));
    assert!(is_valid_char('~'));
    assert!(is_valid_char('a'));
    assert!(!is_valid_char('\0'));
    assert!(!is_valid_char('\x1f'));
    assert!(!is_valid_char('\x7f'));
    assert!(!is_valid_char('\x0b'));
    assert!(!is_valid_char('é'));
}

#[test]
fn validate_string_reports_first_invalid_char() {
    assert_eq!(validate_string("hello\nworld\t!"), Ok(()));
    assert_eq!(validate_string(""), Ok(()));
    assert_eq!(validate_string("ab\x01cd\x02"), Err(InvalidChar { chr: '\x01', idx: 2 }));
    assert_eq!(validate_string("naïve"), Err(InvalidChar { chr: 'ï', idx: 2 }));
    assert_eq!(validate_string("aé\x01"), Err(InvalidChar { chr: 'é', idx: 1 }));
}

#[test]
fn new_text_keeps_its_characters() {
    let hello = text("hello");
    assert_eq!(hello.as_str(), "hello");
    assert_eq!(hello.len(), 5);
    assert!(!hello.is_empty());
    assert!(text("").is_empty());
    assert_eq!(RcString::default().as_str(), "");
    assert_eq!(RcString::new_unchecked("abc").as_str(), "abc");
}

#[test]
fn new_text_rejects_invalid_characters() {
    assert_eq!(RcString::new("a\x00b"), Err(InvalidChar { chr: '\x00', idx: 1 }));
    assert_eq!(RcString::new("\u{1F600}"), Err(InvalidChar { chr: '\u{1F600}', idx: 0 }));
}

#[test]
fn texts_are_equal_by_content() {
    let one = text("same");
    let other = text("same");
    assert!(one.same(&other));
    assert_eq!(one, other);
    assert_eq!(one.clone(), one);
    assert!(!one.same(&text("Same")));
    assert_ne!(one, text("samE"));
}

#[test]
fn char_at_reads_each_character() {
    let word = text("a~\n");
    assert_eq!(word.char_at(0), 'a');
    assert_eq!(word.char_at(1), '~');
    assert_eq!(word.char_at(2), '\n');
}

#[test]
fn concat_appends() {
    assert_eq!(text("ab").concat(&text("cd")).as_str(), "abcd");
    assert_eq!(text("").concat(&text("cd")).as_str(), "cd");
    assert_eq!(text("ab").concat(&text("")).as_str(), "ab");
}

#[test]
fn repeat_writes_the_text_count_times() {
    assert_eq!(text("ab").repeat(3).as_str(), "ababab");
    assert_eq!(text("ab").repeat(1).as_str(), "ab");
    assert_eq!(text("ab").repeat(0).as_str(), "");
    assert_eq!(text("ab").repeat(-4).as_str(), "");
    assert_eq!(text("").repeat(1000).as_str(), "");
}

#[test]
fn substring_is_clamped_to_the_text() {
    let abc = text("abc");
    assert_eq!(abc.substring(1, 10).as_str(), "bc");
    assert_eq!(abc.substring(0, 3).as_str(), "abc");
    assert_eq!(abc.substring(0, 0).as_str(), "");
    assert_eq!(abc.substring(1, 1).as_str(), "b");
    assert_eq!(abc.substring(3, 1).as_str(), "");
    assert_eq!(abc.substring(7, 1).as_str(), "");
    assert_eq!(abc.substring(-1, 2).as_str(), "");
    assert_eq!(abc.substring(1, -1).as_str(), "bc");
    assert_eq!(abc.substring(i64::MAX, i64::MAX).as_str(), "");
    assert_eq!(abc.substring(2, i64::MAX).as_str(), "c");
}

#[test]
fn substitute_replaces_the_range() {
    let abc = text("abc");
    assert_eq!(abc.substitute(1, 1, &text("XY")).as_str(), "aXYc");
    assert_eq!(abc.substitute(0, 0, &text("XY")).as_str(), "XYabc");
    assert_eq!(abc.substitute(3, 0, &text("XY")).as_str(), "abcXY");
    assert_eq!(abc.substitute(0, 3, &text("")).as_str(), "");
    assert_eq!(abc.substitute(1, 100, &text("-")).as_str(), "a-");
    assert_eq!(abc.substitute(100, 1, &text("-")).as_str(), "abc-");
    assert_eq!(abc.substitute(-1, 1, &text("-")).as_str(), "abc-");
    assert_eq!(abc.substitute(1, -1, &text("-")).as_str(), "a-");
}

#[test]
fn less_than_is_lexicographic() {
    assert!(text("a").less_than(&text("b")));
    assert!(!text("b").less_than(&text("a")));
    assert!(text("ab").less_than(&text("abc")));
    assert!(!text("abc").less_than(&text("ab")));
    assert!(!text("abc").less_than(&text("abc")));
    assert!(text("").less_than(&text("a")));
    assert!(!text("").less_than(&text("")));
    assert!(text("Z").less_than(&text("a")));
    assert!(text("abd").less_than(&text("abe")));
    assert!(text("10").less_than(&text("9")));
}

#[test]
fn text_to_number_reads_leading_digits() {
    assert_eq!(text_to_number(&text("abc")), 0);
    assert_eq!(text_to_number(&text("  -12x")), -12);
    assert_eq!(text_to_number(&text("")), 0);
    assert_eq!(text_to_number(&text("   ")), 0);
    assert_eq!(text_to_number(&text("42")), 42);
    assert_eq!(text_to_number(&text("+42")), 42);
    assert_eq!(text_to_number(&text("-")), 0);
    assert_eq!(text_to_number(&text("+-3")), 0);
    assert_eq!(text_to_number(&text("--3")), 0);
    assert_eq!(text_to_number(&text("\t\r\n 7 8")), 7);
    assert_eq!(text_to_number(&text("007")), 7);
    assert_eq!(text_to_number(&text("12 ")), 12);
    assert_eq!(text_to_number(&text("1e3")), 1);
    assert_eq!(text_to_number(&text("- 5")), 0);
}

#[test]
fn text_to_number_wraps_large_numbers() {
    assert_eq!(text_to_number(&text("9223372036854775807")), i64::MAX);
    assert_eq!(text_to_number(&text("-9223372036854775808")), i64::MIN);
    assert_eq!(text_to_number(&text("9223372036854775808")), i64::MIN);
    assert_eq!(text_to_number(&text("18446744073709551616")), 0);
    assert_eq!(text_to_number(&text("18446744073709551617")), 1);
    assert_eq!(text_to_number(&text("-18446744073709551617")), -1);
}

#[test]
fn number_to_text_writes_decimal_notation() {
    assert_eq!(number_to_text(0).as_str(), "0");
    assert_eq!(number_to_text(5).as_str(), "5");
    assert_eq!(number_to_text(10).as_str(), "10");
    assert_eq!(number_to_text(-1).as_str(), "-1");
    assert_eq!(number_to_text(1234567890).as_str(), "1234567890");
    assert_eq!(number_to_text(i64::MAX).as_str(), "9223372036854775807");
    assert_eq!(number_to_text(i64::MIN).as_str(), "-9223372036854775808");
}

#[test]
fn number_survives_the_way_through_text() {
    for number in [0, 1, -1, 9, 10, -10, 99, 100, 12345, -98765, i64::MAX, i64::MIN] {
        assert_eq!(text_to_number(&number_to_text(number)), number);
    }
}

#[test]
fn texts_are_ordered_by_content() {
    assert!(text("a") < text("b"));
    assert!(text("ab") < text("abc"));
    assert!(text("b") > text("abc"));
    assert!(text("a") <= text("a"));
    assert_eq!(text("x").max(text("y")), text("y"));
}
