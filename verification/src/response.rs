//! The one response that every request gets.

use crate::clock::rfc2822_now;
use crate::config::{all_well_formed, distinct_names, Args, ArgsView};
use crate::header::{header_views, valid_header_name, valid_header_value, value_from_str, Header,
    HeaderView};
use crate::render::{all_fit, fixed_body, has_unknown_format, is_fixed, is_static, is_timeless,
    render, static_body, RenderError};
use crate::style::concat_all;
use crate::template::SegmentView;
use crate::text::{chars_of, fits_shape, has_shape, text_view};
use vstd::prelude::*;
use vstd::utf8::encode_utf8;

verus! {

/// A response: status, headers and body.
#[derive(Clone, Debug, PartialEq, Eq)]
pub struct Response {
    pub status: u16,
    pub headers: Vec<Header>,
    pub body: String,
}

/// What a [`Response`] holds.
pub struct ResponseView {
    pub status: u16,
    pub headers: Seq<HeaderView>,
    pub body: Seq<char>,
}

impl View for Response {
    type V = ResponseView;

    open spec fn view(&self) -> ResponseView {
        ResponseView {
            status: self.status,
            headers: header_views(self.headers@),
            body: self.body@,
        }
    }
}

/// The status of the response that stands in for a body that could not be
/// rendered.
pub const FALLBACK_STATUS: u16 = 500;

/// The name of the date header.
pub open spec fn date_name() -> Seq<char> {
    "date"@
}

/// One of the headers is a date header.
pub open spec fn has_date(headers: Seq<HeaderView>) -> bool {
    exists|i: int| 0 <= i < headers.len() && (#[trigger] headers[i]).name == date_name()
}

/// The headers with `value` as the value of each date header.
pub open spec fn replace_date(headers: Seq<HeaderView>, value: Seq<u8>) -> Seq<HeaderView> {
    Seq::new(
        headers.len(),
        |i: int|
            if headers[i].name == date_name() {
                HeaderView { name: headers[i].name, value }
            } else {
                headers[i]
            },
    )
}

/// The headers with the date `date`: a date header among them gets the
/// value, and keeps its place; where there is none, one is added at the end.
/// Without a date the headers stay as they are.
pub open spec fn with_date(headers: Seq<HeaderView>, date: Option<Seq<u8>>) -> Seq<HeaderView> {
    match date {
        None => headers,
        Some(value) => if has_date(headers) {
            replace_date(headers, value)
        } else {
            headers.push(HeaderView { name: date_name(), value })
        },
    }
}

/// The response for a rendered body. A body that was rendered goes out under
/// the configured status with the configured headers and the date. A body
/// that could not be rendered is answered with status 500, the date, and no
/// body.
pub open spec fn response_of(
    args: ArgsView,
    rendered: Result<Seq<char>, RenderError>,
    date: Option<Seq<u8>>,
) -> ResponseView {
    match rendered {
        Ok(body) => ResponseView {
            status: args.code,
            headers: with_date(args.headers, date),
            body,
        },
        Err(_) => ResponseView {
            status: FALLBACK_STATUS,
            headers: with_date(Seq::empty(), date),
            body: Seq::empty(),
        },
    }
}

/// Where the body was rendered, status and body are the configured status
/// and the rendered body, every configured header stands in the response at
/// its place, unchanged unless it is a date header, and the response holds
/// no other header but a date header.
pub proof fn lemma_response_keeps_configuration(
    args: ArgsView,
    body: Seq<char>,
    date: Option<Seq<u8>>,
)
    ensures
        response_of(args, Ok(body), date).status == args.code,
        response_of(args, Ok(body), date).body == body,
        response_of(args, Ok(body), date).headers.len() >= args.headers.len(),
        forall|i: int|
            0 <= i < args.headers.len() ==> (#[trigger] response_of(
                args,
                Ok(body),
                date,
            ).headers[i]).name == args.headers[i].name,
        forall|i: int|
            0 <= i < args.headers.len() && args.headers[i].name != date_name()
                ==> #[trigger] response_of(args, Ok(body), date).headers[i] == args.headers[i],
        forall|i: int|
            args.headers.len() <= i < response_of(args, Ok(body), date).headers.len() ==> (
            #[trigger] response_of(args, Ok(body), date).headers[i]).name == date_name(),
        date is None ==> response_of(args, Ok(body), date).headers == args.headers,
{
}

/// Where a date is given, the response holds a date header with it, and no
/// date header with another value.
pub proof fn lemma_response_is_dated(
    args: ArgsView,
    rendered: Result<Seq<char>, RenderError>,
    value: Seq<u8>,
)
    ensures
        has_date(response_of(args, rendered, Some(value)).headers),
        forall|i: int|
            0 <= i < response_of(args, rendered, Some(value)).headers.len() && (
            #[trigger] response_of(args, rendered, Some(value)).headers[i]).name == date_name()
                ==> response_of(args, rendered, Some(value)).headers[i].value == value,
{
    let configured = match rendered {
        Ok(_) => args.headers,
        Err(_) => Seq::<HeaderView>::empty(),
    };
    let headers = with_date(configured, Some(value));
    assert(headers == response_of(args, rendered, Some(value)).headers);
    if has_date(configured) {
        let i = choose|i: int| 0 <= i < configured.len() && (#[trigger] configured[i]).name
            == date_name();
        assert(headers[i].name == date_name());
    } else {
        assert(headers[configured.len() as int].name == date_name());
        assert forall|i: int| 0 <= i < headers.len() && (#[trigger] headers[i]).name
            == date_name() implies headers[i].value == value by {
            if i < configured.len() {
                assert(configured[i].name != date_name());
            }
        }
    }
}

/// Where the configured headers are valid and differ in their names, and
/// the date is a header value, the headers of the response are valid and
/// differ in their names.
pub proof fn lemma_response_is_well_formed(
    args: ArgsView,
    rendered: Result<Seq<char>, RenderError>,
    date: Option<Seq<u8>>,
)
    requires
        all_well_formed(args.headers),
        distinct_names(args.headers),
        date matches Some(value) ==> valid_header_value(value),
    ensures
        all_well_formed(response_of(args, rendered, date).headers),
        distinct_names(response_of(args, rendered, date).headers),
{
    reveal_strlit("date");
    assert(valid_header_name(date_name()));
    let configured = match rendered {
        Ok(_) => args.headers,
        Err(_) => Seq::<HeaderView>::empty(),
    };
    let headers = with_date(configured, date);
    assert(headers == response_of(args, rendered, date).headers);
    assert forall|i: int| 0 <= i < headers.len() implies valid_header_name(
        (#[trigger] headers[i]).name,
    ) && valid_header_value(headers[i].value) by {
        if i < configured.len() {
            assert(valid_header_name(configured[i].name));
            assert(valid_header_value(configured[i].value));
        }
    }
    assert forall|i: int, j: int| 0 <= i < j < headers.len() implies (#[trigger] headers[i]).name
        != (#[trigger] headers[j]).name by {
        if j < configured.len() {
            assert(configured[i].name != configured[j].name);
            assert(headers[i].name == configured[i].name);
            assert(headers[j].name == configured[j].name);
        } else {
            assert(!has_date(configured));
            assert(headers[i].name == configured[i].name);
            assert(configured[i].name != date_name());
        }
    }
}

/// The view of a body that was rendered, or was not.
pub open spec fn rendered_view(rendered: Result<String, RenderError>) -> Result<
    Seq<char>,
    RenderError,
> {
    match rendered {
        Ok(body) => Ok(body@),
        Err(e) => Err(e),
    }
}

/// The view of a date, if there is one.
pub open spec fn date_view(date: Option<Vec<u8>>) -> Option<Seq<u8>> {
    match date {
        Some(value) => Some(value@),
        None => None,
    }
}

/// The headers with the date `date`.
fn date_headers(headers: &Vec<Header>, date: Option<Vec<u8>>) -> (out: Vec<Header>)
    ensures
        header_views(out@) == with_date(header_views(headers@), date_view(date)),
{
    let ghost views = header_views(headers@);
    let name = "date".to_string();
    let mut out: Vec<Header> = Vec::new();
    let mut found = false;
    let mut i: usize = 0;
    while i < headers.len()
        invariant
            i <= headers.len(),
            views == header_views(headers@),
            name@ == date_name(),
            out.len() == i,
            found == exists|k: int| 0 <= k < i && (#[trigger] views[k]).name == date_name(),
            forall|k: int|
                0 <= k < i ==> (#[trigger] out@[k])@ == match date {
                    Some(value) => if views[k].name == date_name() {
                        HeaderView { name: views[k].name, value: value@ }
                    } else {
                        views[k]
                    },
                    None => views[k],
                },
        decreases headers.len() - i,
    {
        assert(views[i as int] == headers@[i as int]@);
        let is_date = headers[i].name == name;
        match &date {
            Some(value) => {
                if is_date {
                    out.push(
                        Header {
                            name: headers[i].name.clone(),
                            value: crate::text::copy_bytes(value),
                        },
                    );
                } else {
                    out.push(headers[i].duplicate());
                }
            },
            None => {
                out.push(headers[i].duplicate());
            },
        }
        if is_date {
            found = true;
        }
        i += 1;
    }
    match date {
        Some(value) => {
            if !found {
                let ghost before = header_views(out@);
                assert(before =~= views);
                out.push(Header { name, value });
                assert(header_views(out@) =~= views.push(
                    HeaderView { name: date_name(), value: value@ },
                ));
            } else {
                assert(header_views(out@) =~= replace_date(views, value@));
            }
        },
        None => {
            assert(header_views(out@) =~= views);
        },
    }
    out
}

/// The response for a rendered body and a date. Where the date is a header
/// value, the headers of the response are valid and differ in their names.
pub fn build_response(
    args: &Args,
    rendered: Result<String, RenderError>,
    date: Option<Vec<u8>>,
) -> (response: Response)
    ensures
        response@ == response_of(args@, rendered_view(rendered), date_view(date)),
        (date matches Some(value) ==> valid_header_value(value@)) ==> all_well_formed(
            response@.headers,
        ) && distinct_names(response@.headers),
{
    let configured = args.headers();
    proof {
        if date is Some ==> valid_header_value(date->0@) {
            lemma_response_is_well_formed(args@, rendered_view(rendered), date_view(date));
        }
    }
    match rendered {
        Ok(body) => Response {
            status: args.code(),
            headers: date_headers(configured, date),
            body,
        },
        Err(_) => {
            let none: Vec<Header> = Vec::new();
            assert(header_views(none@) =~= Seq::<HeaderView>::empty());
            Response {
                status: FALLBACK_STATUS,
                headers: date_headers(&none, date),
                body: String::new(),
            }
        },
    }
}

/// The three letters name a day of the week.
pub open spec fn is_weekday(a: char, b: char, c: char) -> bool {
    ||| (a == 'M' && b == 'o' && c == 'n')
    ||| (a == 'T' && b == 'u' && c == 'e')
    ||| (a == 'W' && b == 'e' && c == 'd')
    ||| (a == 'T' && b == 'h' && c == 'u')
    ||| (a == 'F' && b == 'r' && c == 'i')
    ||| (a == 'S' && b == 'a' && c == 't')
    ||| (a == 'S' && b == 'u' && c == 'n')
}

/// The three letters name a month.
pub open spec fn is_month(a: char, b: char, c: char) -> bool {
    ||| (a == 'J' && b == 'a' && c == 'n')
    ||| (a == 'F' && b == 'e' && c == 'b')
    ||| (a == 'M' && b == 'a' && c == 'r')
    ||| (a == 'A' && b == 'p' && c == 'r')
    ||| (a == 'M' && b == 'a' && c == 'y')
    ||| (a == 'J' && b == 'u' && c == 'n')
    ||| (a == 'J' && b == 'u' && c == 'l')
    ||| (a == 'A' && b == 'u' && c == 'g')
    ||| (a == 'S' && b == 'e' && c == 'p')
    ||| (a == 'O' && b == 'c' && c == 't')
    ||| (a == 'N' && b == 'o' && c == 'v')
    ||| (a == 'D' && b == 'e' && c == 'c')
}

/// The two digits `a` and `b` stand for a number that is at most the one
/// that the digits `tens` and `ones` stand for.
pub open spec fn at_most(a: char, b: char, tens: char, ones: char) -> bool {
    a < tens || (a == tens && b <= ones)
}

/// The shape of a date whose day has one digit.
pub open spec fn short_date_shape() -> Seq<char> {
    "Aaa, 9 Aaa 9999 99:99:99 +9999"@
}

/// The shape of a date whose day has two digits.
pub open spec fn long_date_shape() -> Seq<char> {
    "Aaa, 99 Aaa 9999 99:99:99 +9999"@
}

/// What holds of a text of the shape of a date beside its shape, where the
/// day has `d` digits: the names are those of a day of the week and of
/// a month, the day is between 1 and 31, the hour at most 23, minute and
/// second at most 59, but for a leap second, and the offset at most 23 hours
/// and 59 minutes.
pub open spec fn is_in_range(s: Seq<char>, d: int) -> bool {
    &&& is_weekday(s[0], s[1], s[2])
    &&& if d == 1 {
        s[5] != '0'
    } else {
        at_most(s[5], s[6], '3', '1') && !(s[5] == '0' && s[6] == '0')
    }
    &&& is_month(s[6 + d], s[7 + d], s[8 + d])
    &&& at_most(s[15 + d], s[16 + d], '2', '3')
    &&& at_most(s[18 + d], s[19 + d], '5', '9')
    &&& at_most(s[21 + d], s[22 + d], '6', '0')
    &&& at_most(s[25 + d], s[26 + d], '2', '3')
    &&& at_most(s[27 + d], s[28 + d], '5', '9')
}

/// The text of a date as RFC 2822 writes it, such as
/// `Tue, 1 Jul 2003 10:52:37 +0200`: the name of the day of the week, the
/// day in one or two digits, the name of the month, the year in four
/// digits, the time of day, and the offset with its sign, each in its
/// range.
pub open spec fn is_date_text(s: Seq<char>) -> bool {
    ||| (fits_shape(s, short_date_shape()) && is_in_range(s, 1))
    ||| (fits_shape(s, long_date_shape()) && is_in_range(s, 2))
}

/// The date for a response, made of what the clock gave: the bytes of that
/// text where it is the text of a date and a header value, and none
/// otherwise.
pub open spec fn date_of(written: Option<Seq<char>>) -> Option<Seq<u8>> {
    match written {
        Some(text) => if is_date_text(text) && valid_header_value(encode_utf8(text)) {
            Some(encode_utf8(text))
        } else {
            None
        },
        None => None,
    }
}

/// Whether the three letters name a day of the week.
fn names_weekday(a: char, b: char, c: char) -> (r: bool)
    ensures
        r == is_weekday(a, b, c),
{
    (a == 'M' && b == 'o' && c == 'n') || (a == 'T' && b == 'u' && c == 'e') || (a == 'W' && b
        == 'e' && c == 'd') || (a == 'T' && b == 'h' && c == 'u') || (a == 'F' && b == 'r' && c
        == 'i') || (a == 'S' && b == 'a' && c == 't') || (a == 'S' && b == 'u' && c == 'n')
}

/// Whether the three letters name a month.
fn names_month(a: char, b: char, c: char) -> (r: bool)
    ensures
        r == is_month(a, b, c),
{
    (a == 'J' && b == 'a' && c == 'n') || (a == 'F' && b == 'e' && c == 'b') || (a == 'M' && b
        == 'a' && c == 'r') || (a == 'A' && b == 'p' && c == 'r') || (a == 'M' && b == 'a' && c
        == 'y') || (a == 'J' && b == 'u' && c == 'n') || (a == 'J' && b == 'u' && c == 'l') || (a
        == 'A' && b == 'u' && c == 'g') || (a == 'S' && b == 'e' && c == 'p') || (a == 'O' && b
        == 'c' && c == 't') || (a == 'N' && b == 'o' && c == 'v') || (a == 'D' && b == 'e' && c
        == 'c')
}

/// Whether the digits `a` and `b` stand for a number that is at most the one
/// of `tens` and `ones`.
fn is_at_most(a: char, b: char, tens: char, ones: char) -> (r: bool)
    ensures
        r == at_most(a, b, tens, ones),
{
    a < tens || (a == tens && b <= ones)
}

/// Whether the text `s`, which has the shape of a date whose day has `d`
/// digits, holds its names and numbers in their ranges.
fn in_range(s: &Vec<char>, d: usize) -> (r: bool)
    requires
        d == 1 || d == 2,
        s.len() == 29 + d,
    ensures
        r == is_in_range(s@, d as int),
{
    let day = if d == 1 {
        s[5] != '0'
    } else {
        is_at_most(s[5], s[6], '3', '1') && !(s[5] == '0' && s[6] == '0')
    };
    names_weekday(s[0], s[1], s[2]) && day && names_month(s[6 + d], s[7 + d], s[8 + d])
        && is_at_most(s[15 + d], s[16 + d], '2', '3') && is_at_most(
        s[18 + d],
        s[19 + d],
        '5',
        '9',
    ) && is_at_most(s[21 + d], s[22 + d], '6', '0') && is_at_most(
        s[25 + d],
        s[26 + d],
        '2',
        '3',
    ) && is_at_most(s[27 + d], s[28 + d], '5', '9')
}

/// Whether `text` is the text of a date as RFC 2822 writes it.
pub fn looks_like_date(text: &str) -> (r: bool)
    ensures
        r == is_date_text(text@),
{
    proof {
        reveal_strlit("Aaa, 9 Aaa 9999 99:99:99 +9999");
        reveal_strlit("Aaa, 99 Aaa 9999 99:99:99 +9999");
    }
    let s = chars_of(text);
    if has_shape(text, "Aaa, 9 Aaa 9999 99:99:99 +9999") {
        in_range(&s, 1)
    } else if has_shape(text, "Aaa, 99 Aaa 9999 99:99:99 +9999") {
        in_range(&s, 2)
    } else {
        false
    }
}

/// The date for a response, made of what the clock gave.
pub fn date_value(written: Option<String>) -> (date: Option<Vec<u8>>)
    ensures
        date_view(date) == date_of(text_view(written)),
{
    match written {
        Some(text) => {
            if !looks_like_date(text.as_str()) {
                return None;
            }
            match value_from_str(text.as_str()) {
                Ok(value) => Some(value),
                Err(_) => None,
            }
        },
        None => None,
    }
}

/// The date for a response: the local time as RFC 2822 writes it, as the
/// bytes of a header value, or none where the clock does not give such a
/// text.
pub fn current_date() -> (date: Option<Vec<u8>>)
    ensures
        date matches Some(value) ==> valid_header_value(value@),
        date matches Some(value) ==> exists|text: Seq<char>|
            is_date_text(text) && value@ == #[trigger] encode_utf8(text),
{
    let written = rfc2822_now();
    let ghost text = text_view(written);
    let date = date_value(written);
    proof {
        if date is Some {
            assert(is_date_text(text->0) && date->0@ == encode_utf8(text->0));
        }
    }
    date
}

/// `date` is none, or the bytes of a text with the shape of a date.
pub open spec fn is_dated(date: Option<Seq<u8>>) -> bool {
    date matches Some(value) ==> exists|text: Seq<char>|
        is_date_text(text) && value == #[trigger] encode_utf8(text)
}

/// `rendered` is a fault, or a body made of pieces that fit `template`.
pub open spec fn is_rendering(
    template: Seq<SegmentView>,
    rendered: Result<Seq<char>, RenderError>,
) -> bool {
    rendered matches Ok(body) ==> exists|pieces: Seq<Seq<char>>|
        all_fit(template, pieces) && body == #[trigger] concat_all(pieces)
}

/// The response to a request, and the fault where the body could not be
/// rendered.
///
/// The body is rendered and the date taken when the response is made. What
/// is returned is the response of [`response_of`] for what came of them:
/// for a body made of pieces that fit the template, or for the fault that
/// is returned beside it, and for a date of the shape of a date, or none.
/// Nothing of the request goes into it. A body that does not ask for the
/// time is always rendered; one that asks for nothing but text and filler
/// text is the same at every request.
pub fn respond(args: &Args) -> (out: (Response, Option<RenderError>))
    ensures
        exists|rendered: Result<Seq<char>, RenderError>, date: Option<Seq<u8>>|
            {
                &&& out.0@ == #[trigger] response_of(args@, rendered, date)
                &&& match out.1 {
                    Some(e) => rendered == Err::<Seq<char>, RenderError>(e),
                    None => rendered is Ok,
                }
                &&& is_rendering(args@.template, rendered)
                &&& is_dated(date)
            },
        out.1 is None ==> out.0@.status == args@.code && is_rendering(
            args@.template,
            Ok(out.0@.body),
        ),
        out.1 matches Some(fault) ==> out.0@.status == FALLBACK_STATUS && out.0@.body.len() == 0
            && fault == RenderError::Unavailable,
        is_timeless(args@.template) ==> out.1 is None,
        out.0@.headers.len() <= args@.headers.len() + 1,
        is_fixed(args@.template) ==> out.1 is None && out.0@.status == args@.code && out.0@.body
            == fixed_body(args@.template),
        is_static(args@.template) ==> out.1 is None && out.0@.status == args@.code && out.0@.body
            == static_body(args@.template),
        has_unknown_format(args@.template) ==> out.1 == Some(RenderError::Unavailable),
        all_well_formed(out.0@.headers),
        distinct_names(out.0@.headers),
{
    let rendered = render(args.template());
    let fault = match &rendered {
        Ok(_) => None,
        Err(e) => Some(*e),
    };
    let date = current_date();
    let ghost rendered_was = rendered_view(rendered);
    let ghost date_was = date_view(date);
    let response = build_response(args, rendered, date);
    assert(response@ == response_of(args@, rendered_was, date_was));
    assert(is_rendering(args@.template, rendered_was));
    assert(is_dated(date_was));
    (response, fault)
}

} // verus!
