use dummyhttp::header::Header;
use dummyhttp::logger::{log_exchange, CapturedExchange};
use dummyhttp::style::{paint, render, Span, Style};
use dummyhttp::text::strip_escapes;

fn painted_span(text: &str, style: Style) -> Span {
    Span { text: text.to_string(), style }
}

#[test]
fn with_colours_a_styled_span_is_wrapped() {
    colored::control::set_override(true);
    assert_eq!(paint(&painted_span("text", Style::Yellow)), "\u{1b}[33mtext\u{1b}[0m");
    assert_eq!(paint(&painted_span("text", Style::Bold)), "\u{1b}[1mtext\u{1b}[0m");
    assert_eq!(paint(&painted_span("text", Style::Green)), "\u{1b}[32mtext\u{1b}[0m");
    assert_eq!(paint(&painted_span("text", Style::Blue)), "\u{1b}[34mtext\u{1b}[0m");
    assert_eq!(paint(&painted_span("text", Style::Cyan)), "\u{1b}[36mtext\u{1b}[0m");
    assert_eq!(paint(&painted_span("text", Style::CyanUnderline)), "\u{1b}[4;36mtext\u{1b}[0m");
    assert_eq!(paint(&painted_span("text", Style::GreenBold)), "\u{1b}[1;32mtext\u{1b}[0m");
    assert_eq!(paint(&painted_span("text", Style::RedBold)), "\u{1b}[1;31mtext\u{1b}[0m");
    assert_eq!(paint(&painted_span("text", Style::Plain)), "text");
    let spans = vec![painted_span("a", Style::Green), painted_span(" ", Style::Plain), painted_span("b", Style::Blue)];
    assert_eq!(render(&spans), "\u{1b}[32ma\u{1b}[0m \u{1b}[34mb\u{1b}[0m");
}

#[test]
fn coloured_log_reads_as_the_plain_log() {
    colored::control::set_override(true);
    let exchange = CapturedExchange {
        peer: "127.0.0.1:51234".to_string(),
        method: "GET".to_string(),
        uri: "/foo?x=1".to_string(),
        protocol: "HTTP/1.1".to_string(),
        request_headers: vec![
            Header { name: "x-a".to_string(), value: b"1".to_vec() },
            Header { name: "content-type".to_string(), value: b"application/json".to_vec() },
        ],
        request_body: b"{\"a\":1}".to_vec(),
        response_status: 200,
        response_headers: Vec::new(),
        response_body: b"dummyhttp".to_vec(),
        timestamp: "2003-07-01 10:52:37".to_string(),
    };
    let lowest = log_exchange(false, 0, &exchange).unwrap();
    assert_eq!(
        lowest,
        "\u{1b}[33m2003-07-01 10:52:37\u{1b}[0m \u{1b}[1m127.0.0.1:51234\u{1b}[0m \u{1b}[32mGET\u{1b}[0m \u{1b}[4;36m/foo?x=1\u{1b}[0m \u{1b}[34mHTTP\u{1b}[0m/\u{1b}[34m1.1\u{1b}[0m"
    );
    assert_eq!(strip_escapes(&lowest), "2003-07-01 10:52:37 127.0.0.1:51234 GET /foo?x=1 HTTP/1.1");
    let full = log_exchange(false, 2, &exchange).unwrap();
    assert!(full.contains("\u{1b}[1;32m\u{2502}\u{1b}[0m \u{1b}[36mX-A\u{1b}[0m: 1"));
    assert_eq!(
        strip_escapes(&full),
        "2003-07-01 10:52:37 127.0.0.1:51234 GET /foo?x=1 HTTP/1.1\n\
         \u{250c}\u{2500}Incoming request\n\
         \u{2502} GET /foo?x=1 HTTP/1.1\n\
         \u{2502} Content-Type: application/json\n\
         \u{2502} X-A: 1\n\
         \u{2502} Body:\n\
         \u{2502} {\n\
         \u{2502}   \"a\": 1\n\
         \u{2502} }\n\
         \u{250c}\u{2500}Outgoing response\n\
         \u{2502} HTTP/1.1 200 OK\n\
         \u{2502} Body:\n\
         \u{2502} dummyhttp"
    );
}

#[test]
fn escape_sequences_of_a_body_are_printed_as_they_came() {
    colored::control::set_override(true);
    let exchange = CapturedExchange {
        peer: "127.0.0.1:51234".to_string(),
        method: "POST".to_string(),
        uri: "/".to_string(),
        protocol: "HTTP/1.1".to_string(),
        request_headers: Vec::new(),
        request_body: b"\x1b[31mred\x1b[0m".to_vec(),
        response_status: 200,
        response_headers: Vec::new(),
        response_body: Vec::new(),
        timestamp: "2003-07-01 10:52:37".to_string(),
    };
    let full = log_exchange(false, 2, &exchange).unwrap();
    assert!(full.contains("\u{1b}[1;32m\u{2502}\u{1b}[0m \u{1b}[31mred\u{1b}[0m"));
    assert!(full.contains("\u{1b}[32mPOST\u{1b}[0m"));
    assert_eq!(
        strip_escapes(&full),
        "2003-07-01 10:52:37 127.0.0.1:51234 POST / HTTP/1.1\n\
         \u{250c}\u{2500}Incoming request\n\
         \u{2502} POST / HTTP/1.1\n\
         \u{2502} Body:\n\
         \u{2502} red\n\
         \u{250c}\u{2500}Outgoing response\n\
         \u{2502} HTTP/1.1 200 OK"
    );
}
