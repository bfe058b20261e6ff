//! The traffic log: what is captured of an exchange, and the block of styled
//! text that is printed for it.

use crate::clock::format_now;
use crate::display::{header_lines, index_of, lemma_index_of_bounds, line_views, plain_body,
    plain_body_of,
    protocol_version, reason_phrase, reason_text, shown_body, sorted_lines, unknown_version,
    version_of, HeaderLine, LineView};
use crate::header::{header_views, Header, HeaderView};
use crate::style::{checked_paint, plain_text, push_span, push_span_chars, render, span_of,
    span_views, unstyled, Span, SpanView, Style};
use crate::text::{chars_of, decimal, escape_free, fits_shape, has_shape,
    lemma_escape_free_is_kept, lines_of, push_decimal, split_lines, text_view, without_escapes};
use vstd::prelude::*;

verus! {

/// What is kept of one request and its response, for the log alone.
#[derive(Clone, Debug, PartialEq, Eq)]
pub struct CapturedExchange {
    pub peer: String,
    pub method: String,
    pub uri: String,
    /// The protocol as its name is written, such as `HTTP/1.1`.
    pub protocol: String,
    pub request_headers: Vec<Header>,
    pub request_body: Vec<u8>,
    pub response_status: u16,
    pub response_headers: Vec<Header>,
    pub response_body: Vec<u8>,
    pub timestamp: String,
}

/// What a [`CapturedExchange`] holds.
pub struct ExchangeView {
    pub peer: Seq<char>,
    pub method: Seq<char>,
    pub uri: Seq<char>,
    pub protocol: Seq<char>,
    pub request_headers: Seq<HeaderView>,
    pub request_body: Seq<u8>,
    pub response_status: u16,
    pub response_headers: Seq<HeaderView>,
    pub response_body: Seq<u8>,
    pub timestamp: Seq<char>,
}

impl View for CapturedExchange {
    type V = ExchangeView;

    open spec fn view(&self) -> ExchangeView {
        ExchangeView {
            peer: self.peer@,
            method: self.method@,
            uri: self.uri@,
            protocol: self.protocol@,
            request_headers: header_views(self.request_headers@),
            request_body: self.request_body@,
            response_status: self.response_status,
            response_headers: header_views(self.response_headers@),
            response_body: self.response_body@,
            timestamp: self.timestamp@,
        }
    }
}

// ---------------------------------------------------------------------------
// The layout
// ---------------------------------------------------------------------------

/// A plain space.
pub open spec fn gap() -> SpanView {
    span_of(" "@, Style::Plain)
}

/// A line break.
pub open spec fn line_break() -> SpanView {
    span_of("\n"@, Style::Plain)
}

/// The bar that opens every line of a section.
pub open spec fn bar(deco: Style) -> SpanView {
    span_of("│"@, deco)
}

/// Method, target and protocol of the request.
pub open spec fn request_line(ex: ExchangeView) -> Seq<SpanView> {
    seq![
        span_of(ex.method, Style::Green),
        gap(),
        span_of(ex.uri, Style::CyanUnderline),
        gap(),
        span_of("HTTP"@, Style::Blue),
        span_of("/"@, Style::Plain),
        span_of(version_of(ex.protocol), Style::Blue),
    ]
}

/// The one line that every exchange gets: time, peer, and the request line.
pub open spec fn connect_line(ex: ExchangeView) -> Seq<SpanView> {
    seq![span_of(ex.timestamp, Style::Yellow), gap(), span_of(ex.peer, Style::Bold), gap()]
        + request_line(ex)
}

/// Protocol, status code and reason phrase of the response.
pub open spec fn status_line(ex: ExchangeView) -> Seq<SpanView> {
    seq![
        span_of("HTTP"@, Style::Blue),
        span_of("/"@, Style::Plain),
        span_of(version_of(ex.protocol), Style::Blue),
        gap(),
        span_of(decimal(ex.response_status as nat), Style::Blue),
        gap(),
        span_of(reason_text(ex.response_status), Style::Cyan),
    ]
}

/// A header on a line of its own.
pub open spec fn header_line_spans(deco: Style, line: LineView) -> Seq<SpanView> {
    seq![
        line_break(),
        bar(deco),
        gap(),
        span_of(line.key, Style::Cyan),
        span_of(": "@, Style::Plain),
        span_of(line.value, Style::Plain),
    ]
}

/// The headers, one per line, in the order given.
pub open spec fn header_spans(deco: Style, lines: Seq<LineView>) -> Seq<SpanView>
    decreases lines.len(),
{
    if lines.len() == 0 {
        Seq::empty()
    } else {
        header_spans(deco, lines.drop_last()) + header_line_spans(deco, lines.last())
    }
}

/// A line of a body on a line of its own.
pub open spec fn body_line_spans(deco: Style, line: Seq<char>) -> Seq<SpanView> {
    seq![line_break(), bar(deco), gap(), span_of(line, Style::Plain)]
}

/// The lines of a body, one per line.
pub open spec fn body_lines_spans(deco: Style, lines: Seq<Seq<char>>) -> Seq<SpanView>
    decreases lines.len(),
{
    if lines.len() == 0 {
        Seq::empty()
    } else {
        body_lines_spans(deco, lines.drop_last()) + body_line_spans(deco, lines.last())
    }
}

/// Whether a body of this text is shown at this verbosity: only bodies that
/// are not empty, and only from the second level on.
pub open spec fn shows_body(verbosity: u8, text: Seq<char>) -> bool {
    verbosity >= 2 && text.len() > 0
}

/// A body under its heading, or nothing where it is not shown.
pub open spec fn body_spans(deco: Style, verbosity: u8, text: Seq<char>) -> Seq<SpanView> {
    if shows_body(verbosity, text) {
        seq![line_break(), bar(deco), gap(), span_of("Body:"@, Style::Yellow)] + body_lines_spans(
            deco,
            lines_of(text),
        )
    } else {
        Seq::empty()
    }
}

/// The banner that opens a section and the bar of its first line.
pub open spec fn banner_spans(deco: Style, title: Seq<char>) -> Seq<SpanView> {
    seq![line_break(), span_of(title, deco), line_break(), bar(deco), gap()]
}

/// The section of the request.
pub open spec fn request_section(verbosity: u8, ex: ExchangeView, text: Seq<char>) -> Seq<
    SpanView,
> {
    banner_spans(Style::GreenBold, "┌─Incoming request"@) + request_line(ex) + header_spans(
        Style::GreenBold,
        sorted_lines(ex.request_headers),
    ) + body_spans(Style::GreenBold, verbosity, text)
}

/// The section of the response.
pub open spec fn response_section(verbosity: u8, ex: ExchangeView, text: Seq<char>) -> Seq<
    SpanView,
> {
    banner_spans(Style::RedBold, "┌─Outgoing response"@) + status_line(ex) + header_spans(
        Style::RedBold,
        sorted_lines(ex.response_headers),
    ) + body_spans(Style::RedBold, verbosity, text)
}

/// The block that the log shows for an exchange. At verbosity 0 it is the
/// connect line alone. From verbosity 1 on the request and the response
/// follow, each with its headers sorted by name; from verbosity 2 on each
/// with its body, where that is not empty. `request_text` and
/// `response_text` are the bodies as they are to be shown.
pub open spec fn log_block(
    verbosity: u8,
    ex: ExchangeView,
    request_text: Seq<char>,
    response_text: Seq<char>,
) -> Seq<SpanView> {
    if verbosity == 0 {
        connect_line(ex)
    } else {
        connect_line(ex) + request_section(verbosity, ex, request_text) + response_section(
            verbosity,
            ex,
            response_text,
        )
    }
}

/// The connect line without its styles, as one text.
pub open spec fn connect_text(ex: ExchangeView) -> Seq<char> {
    ex.timestamp + " "@ + ex.peer + " "@ + ex.method + " "@ + ex.uri + " "@ + "HTTP"@ + "/"@
        + version_of(ex.protocol)
}

/// At verbosity 0 the log of an exchange is its connect line and nothing
/// else: time, peer, method, target and protocol, with a space between each
/// two, whatever headers and bodies the exchange has.
pub proof fn lemma_lowest_level_is_connect_line(
    ex: ExchangeView,
    request_text: Seq<char>,
    response_text: Seq<char>,
)
    ensures
        log_block(0, ex, request_text, response_text) == connect_line(ex),
        plain_text(log_block(0, ex, request_text, response_text)) == connect_text(ex),
{
    reveal_with_fuel(plain_text, 12);
    assert(plain_text(connect_line(ex)) =~= connect_text(ex));
}

fn push_request_line(out: &mut Vec<Span>, ex: &CapturedExchange)
    ensures
        span_views(final(out)@) == span_views(old(out)@) + request_line(ex@),
{
    let version = protocol_version(ex.protocol.as_str());
    push_span(out, ex.method.as_str(), Style::Green);
    push_span(out, " ", Style::Plain);
    push_span(out, ex.uri.as_str(), Style::CyanUnderline);
    push_span(out, " ", Style::Plain);
    push_span(out, "HTTP", Style::Blue);
    push_span(out, "/", Style::Plain);
    push_span(out, version.as_str(), Style::Blue);
    assert(span_views(out@) =~= span_views(old(out)@) + request_line(ex@));
}

fn push_connect_line(out: &mut Vec<Span>, ex: &CapturedExchange)
    ensures
        span_views(final(out)@) == span_views(old(out)@) + connect_line(ex@),
{
    push_span(out, ex.timestamp.as_str(), Style::Yellow);
    push_span(out, " ", Style::Plain);
    push_span(out, ex.peer.as_str(), Style::Bold);
    push_span(out, " ", Style::Plain);
    let ghost head = span_views(out@);
    push_request_line(out, ex);
    assert(head =~= span_views(old(out)@) + seq![
        span_of(ex.timestamp@, Style::Yellow),
        gap(),
        span_of(ex.peer@, Style::Bold),
        gap(),
    ]);
    assert(span_views(out@) =~= span_views(old(out)@) + connect_line(ex@));
}

fn push_status_line(out: &mut Vec<Span>, ex: &CapturedExchange)
    ensures
        span_views(final(out)@) == span_views(old(out)@) + status_line(ex@),
{
    let version = protocol_version(ex.protocol.as_str());
    let mut code: Vec<char> = Vec::new();
    push_decimal(&mut code, ex.response_status);
    assert(code@ =~= decimal(ex.response_status as nat));
    let reason = reason_phrase(ex.response_status);
    push_span(out, "HTTP", Style::Blue);
    push_span(out, "/", Style::Plain);
    push_span(out, version.as_str(), Style::Blue);
    push_span(out, " ", Style::Plain);
    push_span_chars(out, &code, Style::Blue);
    push_span(out, " ", Style::Plain);
    push_span(out, reason.as_str(), Style::Cyan);
    assert(span_views(out@) =~= span_views(old(out)@) + status_line(ex@));
}

fn push_banner(out: &mut Vec<Span>, deco: Style, title: &str)
    ensures
        span_views(final(out)@) == span_views(old(out)@) + banner_spans(deco, title@),
{
    push_span(out, "\n", Style::Plain);
    push_span(out, title, deco);
    push_span(out, "\n", Style::Plain);
    push_span(out, "│", deco);
    push_span(out, " ", Style::Plain);
    assert(span_views(out@) =~= span_views(old(out)@) + banner_spans(deco, title@));
}

fn push_headers(out: &mut Vec<Span>, deco: Style, lines: &Vec<HeaderLine>)
    ensures
        span_views(final(out)@) == span_views(old(out)@) + header_spans(deco, line_views(lines@)),
{
    let mut i: usize = 0;
    assert(span_views(out@) =~= span_views(old(out)@) + header_spans(
        deco,
        line_views(lines@).take(0),
    ));
    while i < lines.len()
        invariant
            i <= lines.len(),
            span_views(out@) == span_views(old(out)@) + header_spans(
                deco,
                line_views(lines@).take(i as int),
            ),
        decreases lines.len() - i,
    {
        let ghost before = span_views(out@);
        push_span(out, "\n", Style::Plain);
        push_span(out, "│", deco);
        push_span(out, " ", Style::Plain);
        push_span_chars(out, &lines[i].key, Style::Cyan);
        push_span(out, ": ", Style::Plain);
        push_span_chars(out, &lines[i].value, Style::Plain);
        proof {
            let all = line_views(lines@);
            assert(all.take(i + 1).drop_last() == all.take(i as int));
            assert(all.take(i + 1).last() == lines@[i as int]@);
            assert(span_views(out@) =~= before + header_line_spans(deco, lines@[i as int]@));
            assert(span_views(out@) =~= span_views(old(out)@) + header_spans(
                deco,
                all.take(i + 1),
            ));
        }
        i += 1;
    }
    assert(line_views(lines@).take(lines.len() as int) == line_views(lines@));
}

fn push_body(out: &mut Vec<Span>, deco: Style, verbosity: u8, text: &str)
    ensures
        span_views(final(out)@) == span_views(old(out)@) + body_spans(deco, verbosity, text@),
{
    let chars = chars_of(text);
    if verbosity < 2 || chars.len() == 0 {
        assert(span_views(out@) =~= span_views(old(out)@) + body_spans(deco, verbosity, text@));
        return ;
    }
    let lines = split_lines(&chars);
    push_span(out, "\n", Style::Plain);
    push_span(out, "│", deco);
    push_span(out, " ", Style::Plain);
    push_span(out, "Body:", Style::Yellow);
    let ghost head = span_views(out@);
    let ghost all = lines_of(text@);
    assert(head =~= span_views(old(out)@) + seq![
        line_break(),
        bar(deco),
        gap(),
        span_of("Body:"@, Style::Yellow),
    ]);
    let mut i: usize = 0;
    assert(span_views(out@) =~= head + body_lines_spans(deco, all.take(0)));
    while i < lines.len()
        invariant
            i <= lines.len(),
            lines@.len() == all.len(),
            forall|n: int| 0 <= n < lines@.len() ==> (#[trigger] lines@[n])@ == all[n],
            span_views(out@) == head + body_lines_spans(deco, all.take(i as int)),
        decreases lines.len() - i,
    {
        let ghost before = span_views(out@);
        push_span(out, "\n", Style::Plain);
        push_span(out, "│", deco);
        push_span(out, " ", Style::Plain);
        push_span_chars(out, &lines[i], Style::Plain);
        proof {
            assert(all.take(i + 1).drop_last() == all.take(i as int));
            assert(all.take(i + 1).last() == lines@[i as int]@);
            assert(span_views(out@) =~= before + body_line_spans(deco, lines@[i as int]@));
            assert(span_views(out@) =~= head + body_lines_spans(deco, all.take(i + 1)));
        }
        i += 1;
    }
    assert(all.take(lines.len() as int) == all);
    assert(span_views(out@) =~= span_views(old(out)@) + body_spans(deco, verbosity, text@));
}

/// The block that the log shows for `ex`, with the bodies shown as
/// `request_text` and `response_text`.
pub fn format_exchange(
    verbosity: u8,
    ex: &CapturedExchange,
    request_text: &str,
    response_text: &str,
) -> (block: Vec<Span>)
    ensures
        span_views(block@) == log_block(verbosity, ex@, request_text@, response_text@),
{
    let mut block: Vec<Span> = Vec::new();
    assert(span_views(block@) =~= Seq::<SpanView>::empty());
    push_connect_line(&mut block, ex);
    assert(span_views(block@) =~= connect_line(ex@));
    if verbosity == 0 {
        return block;
    }
    let request_lines = header_lines(&ex.request_headers);
    let response_lines = header_lines(&ex.response_headers);
    push_banner(&mut block, Style::GreenBold, "┌─Incoming request");
    push_request_line(&mut block, ex);
    push_headers(&mut block, Style::GreenBold, &request_lines);
    push_body(&mut block, Style::GreenBold, verbosity, request_text);
    assert(span_views(block@) =~= connect_line(ex@) + request_section(
        verbosity,
        ex@,
        request_text@,
    ));
    let ghost upper = span_views(block@);
    push_banner(&mut block, Style::RedBold, "┌─Outgoing response");
    push_status_line(&mut block, ex);
    push_headers(&mut block, Style::RedBold, &response_lines);
    push_body(&mut block, Style::RedBold, verbosity, response_text);
    assert(span_views(block@) =~= upper + response_section(verbosity, ex@, response_text@));
    block
}

/// The shape of the time at the head of a log block: four digits, two and
/// two with hyphens between them, a space, and two digits three times with
/// colons between them.
pub open spec fn stamp_shape() -> Seq<char> {
    "9999-99-99 99:99:99"@
}

/// The time for the head of a log block, made of what the clock gave: that
/// text where it has the shape of [`stamp_shape`], and nothing otherwise.
pub open spec fn stamp_of(written: Option<Seq<char>>) -> Seq<char> {
    match written {
        Some(text) => if fits_shape(text, stamp_shape()) {
            text
        } else {
            Seq::empty()
        },
        None => Seq::empty(),
    }
}

/// The time for the head of a log block, made of what the clock gave.
pub fn checked_stamp(written: Option<String>) -> (text: String)
    ensures
        text@ == stamp_of(text_view(written)),
{
    match written {
        Some(text) => {
            if has_shape(text.as_str(), "9999-99-99 99:99:99") {
                text
            } else {
                String::new()
            }
        },
        None => String::new(),
    }
}

/// The time for the head of a log block: the local time written in the
/// format `%Y-%m-%d %H:%M:%S`, or nothing where the clock does not give a
/// text of the shape of [`stamp_shape`].
pub fn log_timestamp() -> (text: String)
    ensures
        text@.len() == 0 || fits_shape(text@, stamp_shape()),
{
    checked_stamp(format_now("%Y-%m-%d %H:%M:%S"))
}

/// The text that the log shows for a body at this verbosity, colours left
/// out: nothing below verbosity 2, and the text of [`plain_body_of`] from
/// there on.
pub open spec fn logged_body(verbosity: u8, headers: Seq<HeaderView>, body: Seq<u8>) -> Seq<
    char,
> {
    if verbosity < 2 {
        Seq::empty()
    } else {
        plain_body_of(headers, body)
    }
}

/// The log of an exchange as one text, styles and colours left out.
pub open spec fn plain_log(verbosity: u8, ex: ExchangeView) -> Seq<char> {
    plain_text(
        log_block(
            verbosity,
            ex,
            logged_body(verbosity, ex.request_headers, ex.request_body),
            logged_body(verbosity, ex.response_headers, ex.response_body),
        ),
    )
}

/// What is recorded at the entry of `ex` holds no escape character.
pub open spec fn entry_is_escape_free(ex: ExchangeView) -> bool {
    &&& escape_free(ex.timestamp)
    &&& escape_free(ex.peer)
    &&& escape_free(ex.method)
    &&& escape_free(ex.uri)
    &&& escape_free(ex.protocol)
}

/// Where the entry of an exchange holds no escape character, its connect
/// line holds none.
pub proof fn lemma_connect_text_is_escape_free(ex: ExchangeView)
    requires
        entry_is_escape_free(ex),
    ensures
        escape_free(connect_text(ex)),
{
    reveal_strlit(" ");
    reveal_strlit("HTTP");
    reveal_strlit("/");
    reveal_strlit("unknown");
    let version = version_of(ex.protocol);
    assert(escape_free(version)) by {
        assert forall|i: int| 0 <= i < version.len() implies version[i] != '\x1b' by {
            let first = index_of(ex.protocol, '/', 0);
            lemma_index_of_bounds(ex.protocol, '/', 0);
            if first < ex.protocol.len() {
                lemma_index_of_bounds(ex.protocol, '/', first + 1);
                assert(version[i] == ex.protocol[first + 1 + i]);
            } else {
                assert(version == unknown_version());
            }
        }
    }
}

/// The text to print for `ex`, or `None` where nothing is to be printed.
///
/// Nothing is printed when `quiet` is set. Otherwise the block of
/// [`format_exchange`] is painted for the terminal, with the bodies shown
/// as [`shown_body`] gives them from verbosity 2 on. What is printed reads
/// as [`plain_log`] does once the escape sequences of both are dropped;
/// where painting gave anything else, the log is printed without styles.
pub fn log_exchange(quiet: bool, verbosity: u8, ex: &CapturedExchange) -> (text: Option<String>)
    ensures
        quiet <==> text is None,
        text matches Some(printed) ==> without_escapes(printed@) == without_escapes(
            plain_log(verbosity, ex@),
        ),
        text matches Some(printed) ==> (escape_free(plain_log(verbosity, ex@))
            ==> without_escapes(printed@) == plain_log(verbosity, ex@)),
        text matches Some(printed) ==> (verbosity == 0 && entry_is_escape_free(ex@)
            ==> without_escapes(printed@) == connect_text(ex@)),
{
    if quiet {
        return None;
    }
    let empty = String::new();
    let plain_block = if verbosity >= 2 {
        let request = plain_body(&ex.request_headers, &ex.request_body);
        let response = plain_body(&ex.response_headers, &ex.response_body);
        format_exchange(verbosity, ex, request.as_str(), response.as_str())
    } else {
        format_exchange(verbosity, ex, empty.as_str(), empty.as_str())
    };
    let shown_block = if verbosity >= 2 {
        let request = shown_body(&ex.request_headers, &ex.request_body);
        let response = shown_body(&ex.response_headers, &ex.response_body);
        format_exchange(verbosity, ex, request.as_str(), response.as_str())
    } else {
        format_exchange(verbosity, ex, empty.as_str(), empty.as_str())
    };
    let plain = unstyled(&plain_block);
    let painted = render(&shown_block);
    let printed = checked_paint(plain.as_str(), painted);
    proof {
        assert(empty@ =~= Seq::<char>::empty());
        let wanted = plain_log(verbosity, ex@);
        assert(plain@ == wanted);
        if escape_free(wanted) {
            lemma_escape_free_is_kept(wanted);
        }
        if verbosity == 0 && entry_is_escape_free(ex@) {
            lemma_lowest_level_is_connect_line(ex@, Seq::empty(), Seq::empty());
            lemma_connect_text_is_escape_free(ex@);
        }
    }
    Some(printed)
}

} // verus!
