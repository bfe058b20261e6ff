use dummyhttp::style::{checked_paint, join_pieces, paint, paint_all, push_span,
    push_span_chars, render, unstyled, Span, Style};

fn style_span(text: &str, style: Style) -> Span {
    Span { text: text.to_string(), style }
}

#[test]
fn spans_are_appended() {
    let mut out = Vec::new();
    push_span(&mut out, "a", Style::Green);
    push_span_chars(&mut out, &vec!['b', 'c'], Style::Plain);
    assert_eq!(out, vec![style_span("a", Style::Green), style_span("bc", Style::Plain)]);
}

#[test]
fn unstyled_text_is_the_texts_in_order() {
    let spans = vec![style_span("a", Style::Green), style_span(" ", Style::Plain), style_span("bc", Style::RedBold)];
    assert_eq!(unstyled(&spans), "a bc");
    assert_eq!(unstyled(&Vec::new()), "");
}

#[test]
fn plain_span_is_painted_as_its_text() {
    assert_eq!(paint(&style_span("a b", Style::Plain)), "a b");
    assert_eq!(paint(&style_span("", Style::Plain)), "");
}

#[test]
fn plain_spans_are_rendered_as_their_text() {
    let spans = vec![style_span("a", Style::Plain), style_span("\n", Style::Plain), style_span("b", Style::Plain)];
    assert_eq!(render(&spans), "a\nb");
    assert_eq!(render(&Vec::new()), "");
}

#[test]
fn pieces_are_joined() {
    assert_eq!(join_pieces(&vec!["a".to_string(), "".to_string(), "bc".to_string()]), "abc");
    assert_eq!(join_pieces(&Vec::new()), "");
}

#[test]
fn every_span_is_painted() {
    let spans = vec![style_span("a", Style::Plain), style_span("b", Style::Plain)];
    assert_eq!(paint_all(&spans), vec!["a".to_string(), "b".to_string()]);
}

#[test]
fn without_colours_a_styled_span_is_its_text() {
    colored::control::set_override(false);
    for style in [Style::Yellow, Style::Bold, Style::Green, Style::Blue, Style::Cyan,
        Style::CyanUnderline, Style::GreenBold, Style::RedBold] {
        assert_eq!(paint(&style_span("text", style)), "text");
    }
}

#[test]
fn painting_is_kept_where_it_reads_as_the_text() {
    assert_eq!(checked_paint("GET", "\u{1b}[32mGET\u{1b}[0m".to_string()), "\u{1b}[32mGET\u{1b}[0m");
    assert_eq!(checked_paint("GET", "GET".to_string()), "GET");
    assert_eq!(checked_paint("", "\u{1b}[32m\u{1b}[0m".to_string()), "\u{1b}[32m\u{1b}[0m");
    assert_eq!(
        checked_paint("a\u{1b}[0mb", "\u{1b}[32ma\u{1b}[0m\u{1b}[32mb\u{1b}[0m".to_string()),
        "\u{1b}[32ma\u{1b}[0m\u{1b}[32mb\u{1b}[0m"
    );
}

#[test]
fn painting_that_reads_otherwise_is_left_out() {
    assert_eq!(checked_paint("GET", "\u{1b}[32mPUT\u{1b}[0m".to_string()), "GET");
    assert_eq!(checked_paint("GET", String::new()), "GET");
    assert_eq!(checked_paint("GET", "\u{1b}[32mGET ".to_string()), "GET");
    assert_eq!(checked_paint("", "x".to_string()), "");
}
