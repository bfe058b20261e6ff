use dummyhttp::display::{header_lines, is_json, plain_body, protocol_version, reason_phrase,
    select_body_text, show_value, shown_body, sort_lines, HeaderLine};
use dummyhttp::text::strip_escapes;
use dummyhttp::header::Header;

fn display_header(name: &str, value: &str) -> Header {
    Header { name: name.to_string(), value: value.as_bytes().to_vec() }
}

fn display_line(key: &str, value: &str) -> HeaderLine {
    HeaderLine { key: key.chars().collect(), value: value.chars().collect() }
}

fn display_shown(bytes: &[u8]) -> String {
    show_value(&bytes.to_vec()).iter().collect()
}

#[test]
fn visible_value_is_shown_as_it_is() {
    assert_eq!(display_shown(b"text/plain; a=\"b\""), "text/plain; a=\"b\"");
    assert_eq!(display_shown(b"a\tb"), "a\tb");
    assert_eq!(display_shown(b""), "");
    assert_eq!(display_shown(b" ~"), " ~");
}

#[test]
fn other_value_is_unprintable() {
    assert_eq!(display_shown(&[0xc3, 0xa9]), "<unprintable>");
    assert_eq!(display_shown(b"a\nb"), "<unprintable>");
    assert_eq!(display_shown(&[0x7f]), "<unprintable>");
    assert_eq!(display_shown(&[b'a', 0x80]), "<unprintable>");
    assert_eq!(display_shown(&[0x1f]), "<unprintable>");
}

#[test]
fn lines_are_sorted_by_key() {
    let sorted = sort_lines(vec![display_line("X-B", "2"), display_line("X-A", "1"), display_line("Accept", "*/*")]);
    assert_eq!(sorted, vec![display_line("Accept", "*/*"), display_line("X-A", "1"), display_line("X-B", "2")]);
}

#[test]
fn key_sorts_before_the_keys_it_begins() {
    let sorted = sort_lines(vec![display_line("X-A-B", "1"), display_line("X-A", "2")]);
    assert_eq!(sorted, vec![display_line("X-A", "2"), display_line("X-A-B", "1")]);
}

#[test]
fn lines_of_one_key_are_sorted_by_value() {
    let sorted = sort_lines(vec![display_line("A", "b"), display_line("A", "a"), display_line("A", ""), display_line("A", "a")]);
    assert_eq!(sorted, vec![display_line("A", ""), display_line("A", "a"), display_line("A", "a"), display_line("A", "b")]);
}

#[test]
fn no_lines_are_sorted() {
    assert_eq!(sort_lines(Vec::new()), Vec::new());
    assert_eq!(sort_lines(vec![display_line("A", "a")]), vec![display_line("A", "a")]);
}

#[test]
fn header_names_are_shown_in_train_case() {
    let lines = header_lines(&vec![display_header("x-b", "2"), display_header("content-type", "text/plain"), display_header("x-a", "1")]);
    assert_eq!(lines, vec![display_line("Content-Type", "text/plain"), display_line("X-A", "1"), display_line("X-B", "2")]);
}

#[test]
fn header_without_printable_value_is_shown_so() {
    let lines = header_lines(&vec![Header { name: "x-a".to_string(), value: vec![0xff] }]);
    assert_eq!(lines, vec![display_line("X-A", "<unprintable>")]);
}

#[test]
fn version_stands_behind_the_slash() {
    assert_eq!(protocol_version("HTTP/1.1"), "1.1");
    assert_eq!(protocol_version("HTTP/2.0"), "2.0");
    assert_eq!(protocol_version("HTTP/0.9"), "0.9");
}

#[test]
fn protocol_without_slash_has_unknown_version() {
    assert_eq!(protocol_version("HTTP"), "unknown");
    assert_eq!(protocol_version(""), "unknown");
}

#[test]
fn version_ends_at_the_next_slash() {
    assert_eq!(protocol_version("a/b/c"), "b");
    assert_eq!(protocol_version("a/"), "");
    assert_eq!(protocol_version("/"), "");
    assert_eq!(protocol_version("a//c"), "");
}

#[test]
fn known_status_has_its_reason() {
    assert_eq!(reason_phrase(200), "OK");
    assert_eq!(reason_phrase(404), "Not Found");
    assert_eq!(reason_phrase(500), "Internal Server Error");
    assert_eq!(reason_phrase(418), "I'm a teapot");
}

#[test]
fn other_status_has_no_reason() {
    assert_eq!(reason_phrase(299), "");
    assert_eq!(reason_phrase(599), "");
    assert_eq!(reason_phrase(0), "");
    assert_eq!(reason_phrase(99), "");
    assert_eq!(reason_phrase(1000), "");
}

#[test]
fn json_is_told_by_the_content_type() {
    assert!(is_json(&vec![display_header("content-type", "application/json")]));
    assert!(is_json(&vec![display_header("x-a", "1"), display_header("Content-Type", "application/json")]));
    assert!(!is_json(&vec![display_header("content-type", "text/plain")]));
    assert!(!is_json(&vec![display_header("content-type", "application/json; charset=utf-8")]));
    assert!(!is_json(&vec![display_header("content-type", "Application/JSON")]));
    assert!(!is_json(&vec![display_header("accept", "application/json")]));
    assert!(!is_json(&Vec::new()));
}

#[test]
fn first_content_type_decides() {
    assert!(!is_json(&vec![display_header("content-type", "text/plain"), display_header("content-type", "application/json")]));
    assert!(is_json(&vec![display_header("content-type", "application/json"), display_header("content-type", "text/plain")]));
}

#[test]
fn body_text_is_picked() {
    let raw = || "raw".to_string();
    let pretty = || Some("pretty".to_string());
    let colored = || Some("\u{1b}[1mpre\u{1b}[0m\u{1b}[32mtty\u{1b}[0m".to_string());
    assert_eq!(select_body_text(false, raw(), pretty(), colored()), "raw");
    assert_eq!(select_body_text(false, raw(), None, None), "raw");
    assert_eq!(select_body_text(true, raw(), None, None), "raw");
    assert_eq!(select_body_text(true, raw(), None, colored()), "raw");
    assert_eq!(select_body_text(true, raw(), pretty(), None), "pretty");
    assert_eq!(
        select_body_text(true, raw(), pretty(), colored()),
        "\u{1b}[1mpre\u{1b}[0m\u{1b}[32mtty\u{1b}[0m"
    );
    assert_eq!(select_body_text(true, raw(), pretty(), pretty()), "pretty");
}

#[test]
fn colouring_that_reads_otherwise_is_left_out() {
    let raw = || "raw".to_string();
    let pretty = || Some("pretty".to_string());
    assert_eq!(select_body_text(true, raw(), pretty(), Some("colored".to_string())), "pretty");
    assert_eq!(select_body_text(true, raw(), pretty(), Some(String::new())), "pretty");
    assert_eq!(
        select_body_text(true, raw(), pretty(), Some("\u{1b}[1mprett\u{1b}[0m".to_string())),
        "pretty"
    );
}

#[test]
fn colouring_is_held_against_the_new_writing_as_it_is() {
    let text = select_body_text(
        true,
        "raw".to_string(),
        Some("pre\u{1b}[1mtty".to_string()),
        Some("pretty".to_string()),
    );
    assert_eq!(text, "pre\u{1b}[1mtty");
}

#[test]
fn body_without_colours_is_the_json_written_anew() {
    let json = vec![display_header("content-type", "application/json")];
    let plain = vec![display_header("content-type", "text/plain")];
    assert_eq!(plain_body(&json, &b"{\"a\":1}".to_vec()), "{\n  \"a\": 1\n}");
    assert_eq!(plain_body(&json, &b"[1,{\"b\":null}]".to_vec()), "[\n  1,\n  {\n    \"b\": null\n  }\n]");
    assert_eq!(plain_body(&json, &b"{\"a\":".to_vec()), "{\"a\":");
    assert_eq!(plain_body(&plain, &b"{\"a\":1}".to_vec()), "{\"a\":1}");
    assert_eq!(plain_body(&Vec::new(), &vec![b'a', 0xff]), "a\u{fffd}");
}

#[test]
fn shown_body_reads_as_the_body_without_colours() {
    let json = vec![display_header("content-type", "application/json")];
    for body in ["{\"a\":1}", "[true,false,null,\"x\",1.5]", "{\"a\":{\"b\":[1,2]}}", "\"\\u001b[1m\"", "nope"] {
        let bytes = body.as_bytes().to_vec();
        assert_eq!(strip_escapes(&shown_body(&json, &bytes)), plain_body(&json, &bytes));
    }
}

#[test]
fn json_body_is_shown_indented() {
    let headers = vec![display_header("content-type", "application/json")];
    assert_eq!(shown_body(&headers, &b"{\"a\":1}".to_vec()), "{\n  \"a\": 1\n}");
}

#[test]
fn same_bytes_as_plain_text_are_shown_as_they_are() {
    let headers = vec![display_header("content-type", "text/plain")];
    assert_eq!(shown_body(&headers, &b"{\"a\":1}".to_vec()), "{\"a\":1}");
    assert_eq!(shown_body(&Vec::new(), &b"{\"a\":1}".to_vec()), "{\"a\":1}");
}

#[test]
fn body_that_is_no_json_is_shown_as_it_is() {
    let headers = vec![display_header("content-type", "application/json")];
    assert_eq!(shown_body(&headers, &b"{\"a\":".to_vec()), "{\"a\":");
    assert_eq!(shown_body(&headers, &b"".to_vec()), "");
}

#[test]
fn bytes_that_are_no_text_are_replaced() {
    assert_eq!(shown_body(&Vec::new(), &vec![b'a', 0xff, b'b']), "a\u{fffd}b");
    assert_eq!(shown_body(&Vec::new(), &vec![0xc3, 0xa9]), "é");
}

#[test]
fn body_of_utf8_is_shown_decoded() {
    let plain = vec![display_header("content-type", "text/plain")];
    let body = "gr\u{fc}\u{df}e \u{2502} {\"a\":1}".as_bytes().to_vec();
    assert_eq!(plain_body(&plain, &body), "gr\u{fc}\u{df}e \u{2502} {\"a\":1}");
    assert_eq!(shown_body(&plain, &body), "gr\u{fc}\u{df}e \u{2502} {\"a\":1}");
    assert_eq!(shown_body(&Vec::new(), &body), "gr\u{fc}\u{df}e \u{2502} {\"a\":1}");
    let json = vec![display_header("content-type", "application/json")];
    let broken = "{\"\u{e9}\":".as_bytes().to_vec();
    assert_eq!(plain_body(&json, &broken), "{\"\u{e9}\":");
    assert_eq!(shown_body(&json, &broken), "{\"\u{e9}\":");
}
