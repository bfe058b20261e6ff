use dummyhttp::template::{parse_directive, parse_template, Segment, Template, TemplateError};

fn template_text(text: &str) -> Segment {
    Segment::Text(text.to_string())
}

fn template_now(format: &str) -> Segment {
    Segment::Now(format.to_string())
}

fn template_segments(text: &str) -> Vec<Segment> {
    parse_template(text).unwrap().segments
}

fn template_directive(text: &str) -> Result<Segment, TemplateError> {
    parse_directive(&text.chars().collect())
}

#[test]
fn text_without_directives_is_one_segment() {
    assert_eq!(template_segments("dummyhttp"), vec![template_text("dummyhttp")]);
    assert_eq!(template_segments("a { b } c }} d"), vec![template_text("a { b } c }} d")]);
    assert_eq!(template_segments("{"), vec![template_text("{")]);
}

#[test]
fn empty_text_has_no_segments() {
    assert_eq!(parse_template(""), Ok(Template { segments: Vec::new() }));
}

#[test]
fn directives_stand_between_text() {
    assert_eq!(
        template_segments("Hello {{ uuid() }}, it's {{ now() | date(format=\"%Y\") }} {{ lorem(words=5)}}"),
        vec![
            template_text("Hello "),
            Segment::Uuid,
            template_text(", it's "),
            template_now("%Y"),
            template_text(" "),
            Segment::Lorem(5),
        ]
    );
}

#[test]
fn directives_may_stand_side_by_side() {
    assert_eq!(template_segments("{{uuid()}}{{uuid()}}"), vec![Segment::Uuid, Segment::Uuid]);
    assert_eq!(template_segments("{{uuid()}}x"), vec![Segment::Uuid, template_text("x")]);
}

#[test]
fn spaces_may_stand_between_the_parts() {
    assert_eq!(template_directive("uuid()"), Ok(Segment::Uuid));
    assert_eq!(template_directive("  uuid ( )  "), Ok(Segment::Uuid));
    assert_eq!(template_directive("\tlorem\n(\r words = 12 ) "), Ok(Segment::Lorem(12)));
    assert_eq!(template_directive("now ( ) | date ( format = \"%H:%M\" ) "), Ok(template_now("%H:%M")));
}

#[test]
fn now_without_filter_is_written_as_rfc_3339() {
    assert_eq!(template_directive("now()"), Ok(template_now("%+")));
}

#[test]
fn format_may_hold_anything_but_a_quote() {
    assert_eq!(template_directive("now()|date(format=\"\")"), Ok(template_now("")));
    assert_eq!(template_directive("now()|date(format=\"a ) | b\")"), Ok(template_now("a ) | b")));
}

#[test]
fn words_are_a_number() {
    assert_eq!(template_directive("lorem(words=0)"), Ok(Segment::Lorem(0)));
    assert_eq!(template_directive("lorem(words=007)"), Ok(Segment::Lorem(7)));
    assert_eq!(template_directive("lorem(words=100000)"), Ok(Segment::Lorem(100000)));
    assert_eq!(template_directive("lorem(words=100001)"), Ok(Segment::Lorem(100001)));
    assert_eq!(template_directive("lorem(words=4294967295)"), Ok(Segment::Lorem(u32::MAX)));
    assert_eq!(template_directive("lorem(words=0004294967295)"), Ok(Segment::Lorem(u32::MAX)));
}

#[test]
fn too_many_words_are_refused() {
    assert_eq!(template_directive("lorem(words=4294967296)"), Err(TemplateError::TooManyWords));
    assert_eq!(
        template_directive("lorem(words=99999999999999999999999999999999)"),
        Err(TemplateError::TooManyWords)
    );
}

#[test]
fn directive_that_is_not_closed_is_refused() {
    assert_eq!(parse_template("a {{ uuid()"), Err(TemplateError::Unclosed));
    assert_eq!(parse_template("{{"), Err(TemplateError::Unclosed));
    assert_eq!(parse_template("{{}"), Err(TemplateError::Unclosed));
    assert_eq!(parse_template("{{ uuid() } }"), Err(TemplateError::Unclosed));
}

#[test]
fn unknown_function_is_refused() {
    assert_eq!(parse_template("{{ foo() }}"), Err(TemplateError::UnknownFunction));
    assert_eq!(template_directive("UUID()"), Err(TemplateError::UnknownFunction));
    assert_eq!(template_directive("uuid4()"), Err(TemplateError::UnknownFunction));
}

#[test]
fn unknown_filter_is_refused() {
    assert_eq!(template_directive("now() | upper"), Err(TemplateError::UnknownFilter));
    assert_eq!(template_directive("now() | upper(format=\"%Y\")"), Err(TemplateError::UnknownFilter));
    assert_eq!(template_directive("uuid() | date(format=\"%Y\")"), Err(TemplateError::UnknownFilter));
    assert_eq!(template_directive("lorem(words=1) | upper"), Err(TemplateError::UnknownFilter));
}

#[test]
fn what_is_no_call_is_refused() {
    for text in ["", " ", "uuid", "uuid(", "uuid)", "()", "uuid() x", "uuid(1)", "name", "1 + 1",
        "lorem()", "lorem(5)", "lorem(words)", "lorem(words=)", "lorem(words=a)", "lorem(words=-1)",
        "lorem(word=5)", "lorem(words=5", "lorem(words=5) x", "lorem(words=5, a=1)", "now(",
        "now(1)", "now() x", "now() |", "now() | date", "now() | date()", "now() | date(format)",
        "now() | date(format=)", "now() | date(format=%Y)", "now() | date(format=\"%Y)",
        "now() | date(fmt=\"%Y\")", "now() | date(format=\"%Y\"", "now() | date(format=\"%Y\") x",
        "now() | date(format=\"%Y\") | date(format=\"%Y\")"] {
        assert_eq!(template_directive(text), Err(TemplateError::Syntax));
    }
}

#[test]
fn first_fault_decides() {
    assert_eq!(parse_template("{{ foo() }}{{ uuid"), Err(TemplateError::UnknownFunction));
    assert_eq!(parse_template("{{ uuid }}{{ foo() }}"), Err(TemplateError::Syntax));
    assert_eq!(parse_template("{{ uuid() }}{{ foo() }} {{"), Err(TemplateError::UnknownFunction));
    assert_eq!(parse_template("{{ uuid() }} {{"), Err(TemplateError::Unclosed));
}

#[test]
fn directive_ends_at_the_first_closing_braces() {
    assert_eq!(
        template_segments("{{ uuid() }} }}"),
        vec![Segment::Uuid, template_text(" }}")]
    );
    assert_eq!(parse_template("{{ now() | date(format=\"}}\") }}"), Err(TemplateError::Syntax));
}

#[test]
fn third_brace_belongs_to_the_directive() {
    assert_eq!(parse_template("{{{ uuid() }}"), Err(TemplateError::Syntax));
    assert_eq!(template_segments("{ {{ uuid() }}}"), vec![template_text("{ "), Segment::Uuid, template_text("}")]);
}
