//! Styled text: what a log block is made of before it is painted for the
//! terminal.

use crate::text::{chars_of, push_chars, string_of, strip_escapes, without_escapes};
use colored::Colorize;
use vstd::prelude::*;

verus! {

/// How a piece of log text is to be shown.
#[derive(Clone, Copy, Debug, PartialEq, Eq, Structural)]
pub enum Style {
    Plain,
    Yellow,
    Bold,
    Green,
    Blue,
    Cyan,
    CyanUnderline,
    GreenBold,
    RedBold,
}

/// A piece of text with its style.
#[derive(Clone, Debug, PartialEq, Eq)]
pub struct Span {
    pub text: String,
    pub style: Style,
}

/// What a [`Span`] holds.
pub struct SpanView {
    pub text: Seq<char>,
    pub style: Style,
}

impl View for Span {
    type V = SpanView;

    open spec fn view(&self) -> SpanView {
        SpanView { text: self.text@, style: self.style }
    }
}

/// The span of `text` in `style`.
pub open spec fn span_of(text: Seq<char>, style: Style) -> SpanView {
    SpanView { text, style }
}

/// The views of a list of spans, in order.
pub open spec fn span_views(spans: Seq<Span>) -> Seq<SpanView> {
    spans.map_values(|s: Span| s@)
}

/// The texts of `spans` one after the other, styles left out.
pub open spec fn plain_text(spans: Seq<SpanView>) -> Seq<char>
    decreases spans.len(),
{
    if spans.len() == 0 {
        Seq::empty()
    } else {
        plain_text(spans.drop_last()) + spans.last().text
    }
}

/// The texts of `pieces` one after the other.
pub open spec fn concat_all(pieces: Seq<Seq<char>>) -> Seq<char>
    decreases pieces.len(),
{
    if pieces.len() == 0 {
        Seq::empty()
    } else {
        concat_all(pieces.drop_last()) + pieces.last()
    }
}

/// Every span of `spans` is plain.
pub open spec fn all_plain(spans: Seq<SpanView>) -> bool {
    forall|i: int| 0 <= i < spans.len() ==> (#[trigger] spans[i]).style == Style::Plain
}

/// Appends the span of `text` in `style` to `out`.
pub fn push_span(out: &mut Vec<Span>, text: &str, style: Style)
    ensures
        span_views(final(out)@) == span_views(old(out)@).push(span_of(text@, style)),
{
    out.push(Span { text: text.to_string(), style });
    assert(span_views(out@) =~= span_views(old(out)@).push(span_of(text@, style)));
}

/// Appends the span of the characters `text` in `style` to `out`.
pub fn push_span_chars(out: &mut Vec<Span>, text: &Vec<char>, style: Style)
    ensures
        span_views(final(out)@) == span_views(old(out)@).push(span_of(text@, style)),
{
    out.push(Span { text: string_of(text), style });
    assert(span_views(out@) =~= span_views(old(out)@).push(span_of(text@, style)));
}

/// The text of `spans` without any style.
pub fn unstyled(spans: &Vec<Span>) -> (text: String)
    ensures
        text@ == plain_text(span_views(spans@)),
{
    let mut out: Vec<char> = Vec::new();
    let mut i: usize = 0;
    while i < spans.len()
        invariant
            i <= spans.len(),
            out@ == plain_text(span_views(spans@).take(i as int)),
        decreases spans.len() - i,
    {
        let piece = chars_of(spans[i].text.as_str());
        push_chars(&mut out, &piece);
        proof {
            let views = span_views(spans@);
            assert(views.take(i + 1).drop_last() == views.take(i as int));
            assert(views.take(i + 1).last().text == spans@[i as int].text@);
        }
        i += 1;
    }
    assert(span_views(spans@).take(spans.len() as int) == span_views(spans@));
    string_of(&out)
}

// ---------------------------------------------------------------------------
// Painting
// ---------------------------------------------------------------------------
//
// Whether the terminal styles are written at all is decided by the process's
// environment, so nothing is stated of what the painters return.

/// `Colorize::yellow`, shown as a string.
#[verifier::external_body]
fn paint_yellow(text: &str) -> String {
    text.yellow().to_string()
}

/// `Colorize::bold`, shown as a string.
#[verifier::external_body]
fn paint_bold(text: &str) -> String {
    text.bold().to_string()
}

/// `Colorize::green`, shown as a string.
#[verifier::external_body]
fn paint_green(text: &str) -> String {
    text.green().to_string()
}

/// `Colorize::blue`, shown as a string.
#[verifier::external_body]
fn paint_blue(text: &str) -> String {
    text.blue().to_string()
}

/// `Colorize::cyan`, shown as a string.
#[verifier::external_body]
fn paint_cyan(text: &str) -> String {
    text.cyan().to_string()
}

/// `Colorize::cyan` and then `Colorize::underline`, shown as a string.
#[verifier::external_body]
fn paint_cyan_underline(text: &str) -> String {
    text.cyan().underline().to_string()
}

/// `Colorize::green` and then `Colorize::bold`, shown as a string.
#[verifier::external_body]
fn paint_green_bold(text: &str) -> String {
    text.green().bold().to_string()
}

/// `Colorize::red` and then `Colorize::bold`, shown as a string.
#[verifier::external_body]
fn paint_red_bold(text: &str) -> String {
    text.red().bold().to_string()
}

/// What is shown for `text` where `painted` is what the painter gave:
/// `painted` where it reads as `text` once the escape sequences of both are
/// dropped, and `text` itself otherwise.
pub open spec fn paint_of(text: Seq<char>, painted: Seq<char>) -> Seq<char> {
    if without_escapes(painted) == without_escapes(text) {
        painted
    } else {
        text
    }
}

/// Holds what the painter gave against the text that it was given.
pub fn checked_paint(text: &str, painted: String) -> (shown: String)
    ensures
        shown@ == paint_of(text@, painted@),
{
    let read = strip_escapes(painted.as_str());
    let meant = strip_escapes(text);
    if read == meant {
        painted
    } else {
        text.to_string()
    }
}

/// The span as the terminal gets it. A plain span is its text. A styled span
/// may be wrapped in escape sequences, as the environment decides; with the
/// escape sequences dropped it reads as its text does.
pub fn paint(span: &Span) -> (painted: String)
    ensures
        span.style == Style::Plain ==> painted@ == span.text@,
        without_escapes(painted@) == without_escapes(span.text@),
{
    let text = span.text.as_str();
    let painted = match span.style {
        Style::Plain => {
            return text.to_string();
        },
        Style::Yellow => paint_yellow(text),
        Style::Bold => paint_bold(text),
        Style::Green => paint_green(text),
        Style::Blue => paint_blue(text),
        Style::Cyan => paint_cyan(text),
        Style::CyanUnderline => paint_cyan_underline(text),
        Style::GreenBold => paint_green_bold(text),
        Style::RedBold => paint_red_bold(text),
    };
    checked_paint(text, painted)
}

/// The views of a list of strings, in order.
pub open spec fn string_views(pieces: Seq<String>) -> Seq<Seq<char>> {
    pieces.map_values(|s: String| s@)
}

/// Each span painted, in order. Plain spans keep their text, and every piece
/// reads as the text of its span once the escape sequences are dropped.
pub fn paint_all(spans: &Vec<Span>) -> (pieces: Vec<String>)
    ensures
        pieces@.len() == spans@.len(),
        forall|i: int|
            0 <= i < spans@.len() && spans@[i].style == Style::Plain ==> (#[trigger] pieces@[i])@
                == spans@[i].text@,
        forall|i: int|
            0 <= i < spans@.len() ==> without_escapes((#[trigger] pieces@[i])@) == without_escapes(
                spans@[i].text@,
            ),
{
    let mut pieces: Vec<String> = Vec::new();
    let mut i: usize = 0;
    while i < spans.len()
        invariant
            i <= spans.len(),
            pieces@.len() == i,
            forall|k: int|
                0 <= k < i && spans@[k].style == Style::Plain ==> (#[trigger] pieces@[k])@
                    == spans@[k].text@,
            forall|k: int|
                0 <= k < i ==> without_escapes((#[trigger] pieces@[k])@) == without_escapes(
                    spans@[k].text@,
                ),
        decreases spans.len() - i,
    {
        pieces.push(paint(&spans[i]));
        i += 1;
    }
    pieces
}

/// The strings of `pieces` one after the other.
pub fn join_pieces(pieces: &Vec<String>) -> (text: String)
    ensures
        text@ == concat_all(string_views(pieces@)),
{
    let mut out: Vec<char> = Vec::new();
    let mut i: usize = 0;
    while i < pieces.len()
        invariant
            i <= pieces.len(),
            out@ == concat_all(string_views(pieces@).take(i as int)),
        decreases pieces.len() - i,
    {
        let piece = chars_of(pieces[i].as_str());
        push_chars(&mut out, &piece);
        proof {
            let views = string_views(pieces@);
            assert(views.take(i + 1).drop_last() == views.take(i as int));
            assert(views.take(i + 1).last() == pieces@[i as int]@);
        }
        i += 1;
    }
    assert(string_views(pieces@).take(pieces.len() as int) == string_views(pieces@));
    string_of(&out)
}

/// Where every span is plain, the painted pieces read as the plain text.
pub proof fn lemma_plain_pieces(spans: Seq<SpanView>, pieces: Seq<Seq<char>>)
    requires
        all_plain(spans),
        pieces.len() == spans.len(),
        forall|i: int| 0 <= i < spans.len() ==> #[trigger] pieces[i] == spans[i].text,
    ensures
        concat_all(pieces) == plain_text(spans),
    decreases spans.len(),
{
    if spans.len() > 0 {
        lemma_plain_pieces(spans.drop_last(), pieces.drop_last());
    }
}

/// `pieces` may be what painting `spans` gives: one piece for each span; the
/// piece of a plain span is its text, and every piece reads as the text of
/// its span once the escape sequences are dropped.
pub open spec fn is_painting(spans: Seq<SpanView>, pieces: Seq<Seq<char>>) -> bool {
    &&& pieces.len() == spans.len()
    &&& forall|i: int|
        0 <= i < spans.len() && spans[i].style == Style::Plain ==> #[trigger] pieces[i]
            == spans[i].text
    &&& forall|i: int|
        0 <= i < spans.len() ==> without_escapes(#[trigger] pieces[i]) == without_escapes(
            spans[i].text,
        )
}

/// The painted text of `spans`: each span painted, one after the other, so
/// that every piece reads as the text of its span once the escape sequences
/// are dropped. Where every span is plain this is the plain text.
pub fn render(spans: &Vec<Span>) -> (text: String)
    ensures
        exists|pieces: Seq<Seq<char>>|
            is_painting(span_views(spans@), pieces) && text@ == concat_all(pieces),
        all_plain(span_views(spans@)) ==> text@ == plain_text(span_views(spans@)),
{
    let pieces = paint_all(spans);
    let text = join_pieces(&pieces);
    proof {
        assert(is_painting(span_views(spans@), string_views(pieces@))) by {
            assert forall|i: int|
                0 <= i < spans@.len() && span_views(spans@)[i].style
                    == Style::Plain implies #[trigger] string_views(pieces@)[i] == span_views(
                spans@,
            )[i].text by {
                assert(pieces@[i]@ == spans@[i].text@);
            }
            assert forall|i: int| 0 <= i < spans@.len() implies without_escapes(
                #[trigger] string_views(pieces@)[i],
            ) == without_escapes(span_views(spans@)[i].text) by {
                assert(without_escapes(pieces@[i]@) == without_escapes(spans@[i].text@));
            }
        }
        if all_plain(span_views(spans@)) {
            let views = span_views(spans@);
            let texts = string_views(pieces@);
            assert forall|i: int| 0 <= i < views.len() implies #[trigger] texts[i]
                == views[i].text by {
                assert(views[i].style == Style::Plain);
                assert(pieces@[i]@ == spans@[i].text@);
            }
            lemma_plain_pieces(views, texts);
        }
    }
    text
}

} // verus!
