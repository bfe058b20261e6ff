use dummyhttp::text::{chars_eq, chars_lt, chars_of, copy_bytes, has_shape, push_chars,
    push_decimal, split_lines, string_of, strip_escapes};

fn text_chars(s: &str) -> Vec<char> {
    s.chars().collect()
}

fn text_lines(s: &str) -> Vec<String> {
    split_lines(&text_chars(s)).iter().map(|l| l.iter().collect()).collect()
}

fn text_std_lines(s: &str) -> Vec<String> {
    s.lines().map(|l| l.to_string()).collect()
}

#[test]
fn chars_and_back() {
    assert_eq!(chars_of("héllo"), vec!['h', 'é', 'l', 'l', 'o']);
    assert_eq!(string_of(&vec!['h', 'é', 'l', 'l', 'o']), "héllo");
    assert_eq!(chars_of(""), Vec::<char>::new());
    assert_eq!(string_of(&Vec::new()), "");
}

#[test]
fn characters_are_appended() {
    let mut out = text_chars("ab");
    push_chars(&mut out, &text_chars("cd"));
    push_chars(&mut out, &Vec::new());
    assert_eq!(out, text_chars("abcd"));
}

#[test]
fn bytes_are_copied() {
    assert_eq!(copy_bytes(&vec![1, 2, 255]), vec![1, 2, 255]);
    assert_eq!(copy_bytes(&Vec::new()), Vec::<u8>::new());
}

#[test]
fn equal_characters_are_equal() {
    assert!(chars_eq(&text_chars("abc"), &text_chars("abc")));
    assert!(!chars_eq(&text_chars("abc"), &text_chars("abd")));
    assert!(!chars_eq(&text_chars("abc"), &text_chars("ab")));
    assert!(chars_eq(&text_chars(""), &text_chars("")));
}

#[test]
fn order_is_lexicographic() {
    assert!(chars_lt(&text_chars("a"), &text_chars("b")));
    assert!(!chars_lt(&text_chars("b"), &text_chars("a")));
    assert!(chars_lt(&text_chars("ab"), &text_chars("abc")));
    assert!(!chars_lt(&text_chars("abc"), &text_chars("ab")));
    assert!(!chars_lt(&text_chars("abc"), &text_chars("abc")));
    assert!(chars_lt(&text_chars(""), &text_chars("a")));
    assert!(!chars_lt(&text_chars(""), &text_chars("")));
    assert!(chars_lt(&text_chars("Z"), &text_chars("a")));
    assert!(chars_lt(&text_chars("z"), &text_chars("é")));
}

#[test]
fn order_agrees_with_the_order_of_strings() {
    let words = ["", "a", "ab", "abc", "b", "X-A", "X-A-B", "X-B", "é", "z"];
    for a in words {
        for b in words {
            assert_eq!(chars_lt(&text_chars(a), &text_chars(b)), a < b);
        }
    }
}

#[test]
fn lines_end_at_line_feeds() {
    assert_eq!(text_lines("foo\nbar"), vec!["foo", "bar"]);
    assert_eq!(text_lines("foo\nbar\n"), vec!["foo", "bar"]);
    assert_eq!(text_lines("foo\n\nbar"), vec!["foo", "", "bar"]);
    assert_eq!(text_lines("\n"), vec![""]);
    assert_eq!(text_lines("foo"), vec!["foo"]);
    assert_eq!(text_lines(""), Vec::<String>::new());
}

#[test]
fn carriage_return_before_line_feed_is_dropped() {
    assert_eq!(text_lines("foo\r\nbar"), vec!["foo", "bar"]);
    assert_eq!(text_lines("foo\r\r\nbar"), vec!["foo\r", "bar"]);
    assert_eq!(text_lines("foo\nbar\n\r\nbaz\r"), vec!["foo", "bar", "", "baz\r"]);
}

#[test]
fn lines_are_the_lines_of_the_string() {
    let texts = ["", "a", "a\n", "\n", "\n\n", "a\r\nb", "a\rb", "a\r", "\r\n", "a\n\rb\n", "x\ny\r\n\r\nz"];
    for text in texts {
        assert_eq!(text_lines(text), text_std_lines(text));
    }
}

#[test]
fn numbers_are_written_in_decimal() {
    for (n, text) in [(0u16, "0"), (7, "7"), (10, "10"), (200, "200"), (404, "404"), (65535, "65535")] {
        let mut out = Vec::new();
        push_decimal(&mut out, n);
        assert_eq!(string_of(&out), text);
    }
}

#[test]
fn decimal_is_appended() {
    let mut out = text_chars("x");
    push_decimal(&mut out, 599);
    assert_eq!(out, text_chars("x599"));
}

#[test]
fn shape_is_held_character_by_character() {
    assert!(has_shape("2003-52-01 10:52:37", "9999-99-99 99:99:99"));
    assert!(has_shape("Tue, 1 Jul 2003 10:52:37 +0200", "Aaa, 9 Aaa 9999 99:99:99 +9999"));
    assert!(has_shape("Tue, 1 Jul 2003 10:52:37 -0200", "Aaa, 9 Aaa 9999 99:99:99 +9999"));
    assert!(has_shape("", ""));
    assert!(has_shape("x", "x"));
    assert!(!has_shape("2003-52-01 10:52:3", "9999-99-99 99:99:99"));
    assert!(!has_shape("2003-52-01 10:52:371", "9999-99-99 99:99:99"));
    assert!(!has_shape("2003/52/01 10:52:37", "9999-99-99 99:99:99"));
    assert!(!has_shape("2003-5a-01 10:52:37", "9999-99-99 99:99:99"));
    assert!(!has_shape("tue", "Aaa"));
    assert!(!has_shape("TUE", "Aaa"));
    assert!(!has_shape("T1e", "Aaa"));
    assert!(!has_shape("*", "+"));
    assert!(!has_shape("A", "9"));
    assert!(!has_shape("a", "A"));
    assert!(!has_shape("9", "a"));
    assert!(!has_shape("", "x"));
}

#[test]
fn escape_sequences_are_dropped() {
    assert_eq!(strip_escapes("\u{1b}[32mGET\u{1b}[0m"), "GET");
    assert_eq!(strip_escapes("\u{1b}[1;32m\u{2502}\u{1b}[0m \u{1b}[4;36m/foo\u{1b}[0m"), "\u{2502} /foo");
    assert_eq!(strip_escapes("\u{1b}[m"), "");
    assert_eq!(strip_escapes("\u{1b}[38;5;12mx"), "x");
    assert_eq!(strip_escapes("a\u{1b}[0mb\u{1b}[0m"), "ab");
    assert_eq!(strip_escapes("plain text"), "plain text");
    assert_eq!(strip_escapes(""), "");
}

#[test]
fn what_is_no_escape_sequence_is_kept() {
    assert_eq!(strip_escapes("\u{1b}"), "\u{1b}");
    assert_eq!(strip_escapes("\u{1b}["), "\u{1b}[");
    assert_eq!(strip_escapes("\u{1b}[1"), "\u{1b}[1");
    assert_eq!(strip_escapes("\u{1b}[1;"), "\u{1b}[1;");
    assert_eq!(strip_escapes("\u{1b}[1x"), "\u{1b}[1x");
    assert_eq!(strip_escapes("\u{1b}[2J"), "\u{1b}[2J");
    assert_eq!(strip_escapes("\u{1b}]0m"), "\u{1b}]0m");
    assert_eq!(strip_escapes("[0m"), "[0m");
    assert_eq!(strip_escapes("\u{1b}\u{1b}[0m"), "\u{1b}");
    assert_eq!(strip_escapes("\u{1b}[\u{1b}[0m"), "\u{1b}[");
    assert_eq!(strip_escapes("\u{1b}\u{1b}[0m[0m"), "\u{1b}[0m");
}
