//! The body template: plain text with directives in double braces.
//!
//! A directive calls one of three functions:
//!
//! ```text
//! {{ uuid() }}
//! {{ lorem(words=5) }}
//! {{ now() }}
//! {{ now() | date(format="%Y") }}
//! ```
//!
//! Spaces may stand between the parts of a directive. Everything outside the
//! double braces is text and is given out as it is.

use crate::text::{chars_of, string_of};
use vstd::prelude::*;

verus! {

/// A part of a template.
#[derive(Clone, Debug, PartialEq, Eq)]
pub enum Segment {
    /// Text that is given out as it is.
    Text(String),
    /// A fresh random identifier.
    Uuid,
    /// So many words of filler text.
    Lorem(u32),
    /// The local time in this format.
    Now(String),
}

/// What a [`Segment`] holds.
pub enum SegmentView {
    Text(Seq<char>),
    Uuid,
    Lorem(u32),
    Now(Seq<char>),
}

impl View for Segment {
    type V = SegmentView;

    open spec fn view(&self) -> SegmentView {
        match self {
            Segment::Text(text) => SegmentView::Text(text@),
            Segment::Uuid => SegmentView::Uuid,
            Segment::Lorem(words) => SegmentView::Lorem(*words),
            Segment::Now(format) => SegmentView::Now(format@),
        }
    }
}

/// A parsed template: its segments in order.
#[derive(Clone, Debug, PartialEq, Eq)]
pub struct Template {
    pub segments: Vec<Segment>,
}

impl View for Template {
    type V = Seq<SegmentView>;

    open spec fn view(&self) -> Seq<SegmentView> {
        self.segments@.map_values(|s: Segment| s@)
    }
}

/// Why a text is no template.
#[derive(Clone, Copy, Debug, PartialEq, Eq, Structural)]
pub enum TemplateError {
    /// A directive is opened and never closed.
    Unclosed,
    /// A directive does not read as a call.
    Syntax,
    /// A directive calls a function that is not known.
    UnknownFunction,
    /// A directive uses a filter that is not known, or one where none applies.
    UnknownFilter,
    /// The number of words is greater than a `u32` holds.
    TooManyWords,
    /// The template cannot be rendered.
    NotRenderable,
}

/// The format of `now()` without a filter: date and time as RFC 3339 writes
/// them.
pub open spec fn default_time_format() -> Seq<char> {
    "%+"@
}

// ---------------------------------------------------------------------------
// Scanning
// ---------------------------------------------------------------------------

/// A class of characters.
#[derive(Clone, Copy, Debug, PartialEq, Eq, Structural)]
pub enum CharClass {
    /// Space, tab, line feed, carriage return.
    Space,
    /// Letters of ASCII, digits, the underscore.
    Word,
    /// Digits.
    Digit,
    /// Everything but the double quote.
    Unquoted,
}

/// Whether `c` belongs to `class`.
pub open spec fn in_class(class: CharClass, c: char) -> bool {
    match class {
        CharClass::Space => c == ' ' || c == '\t' || c == '\n' || c == '\r',
        CharClass::Word => ('a' <= c <= 'z') || ('A' <= c <= 'Z') || ('0' <= c <= '9') || c == '_',
        CharClass::Digit => '0' <= c <= '9',
        CharClass::Unquoted => c != '"',
    }
}

/// Where the run of characters of `class` that starts at `i` ends.
pub open spec fn run_end(s: Seq<char>, i: int, class: CharClass) -> int
    decreases s.len() - i,
{
    if 0 <= i < s.len() && in_class(class, s[i]) {
        run_end(s, i + 1, class)
    } else {
        i
    }
}

/// Where the spaces that start at `i` end.
pub open spec fn after_spaces(s: Seq<char>, i: int) -> int {
    run_end(s, i, CharClass::Space)
}

/// `s` holds `c` at `i`.
pub open spec fn holds(s: Seq<char>, i: int, c: char) -> bool {
    0 <= i < s.len() && s[i] == c
}

/// The first index from `i` on where `c` stands twice in a row, or the
/// length of `s`.
pub open spec fn find_pair(s: Seq<char>, i: int, c: char) -> int
    decreases s.len() - i,
{
    if i < 0 || i + 1 >= s.len() {
        s.len() as int
    } else if s[i] == c && s[i + 1] == c {
        i
    } else {
        find_pair(s, i + 1, c)
    }
}

/// A pair is found at or after the start of the search, or not at all.
pub proof fn lemma_find_pair_bounds(s: Seq<char>, i: int, c: char)
    requires
        0 <= i,
    ensures
        find_pair(s, i, c) == s.len() || (i <= find_pair(s, i, c) && find_pair(s, i, c) + 1
            < s.len()),
    decreases s.len() - i,
{
    if i + 1 < s.len() && !(s[i] == c && s[i + 1] == c) {
        lemma_find_pair_bounds(s, i + 1, c);
    }
}

fn class_has(class: CharClass, c: char) -> (r: bool)
    ensures
        r == in_class(class, c),
{
    match class {
        CharClass::Space => c == ' ' || c == '\t' || c == '\n' || c == '\r',
        CharClass::Word => (c >= 'a' && c <= 'z') || (c >= 'A' && c <= 'Z') || (c >= '0' && c
            <= '9') || c == '_',
        CharClass::Digit => c >= '0' && c <= '9',
        CharClass::Unquoted => c != '"',
    }
}

fn scan(s: &Vec<char>, from: usize, class: CharClass) -> (end: usize)
    requires
        from <= s.len(),
    ensures
        end == run_end(s@, from as int, class),
        from <= end <= s.len(),
{
    let mut i: usize = from;
    while i < s.len() && class_has(class, s[i])
        invariant
            from <= i <= s.len(),
            run_end(s@, i as int, class) == run_end(s@, from as int, class),
        decreases s.len() - i,
    {
        i += 1;
    }
    i
}

fn skip_spaces(s: &Vec<char>, from: usize) -> (end: usize)
    requires
        from <= s.len(),
    ensures
        end == after_spaces(s@, from as int),
        from <= end <= s.len(),
{
    scan(s, from, CharClass::Space)
}

fn has_char(s: &Vec<char>, at: usize, c: char) -> (r: bool)
    ensures
        r == holds(s@, at as int, c),
{
    at < s.len() && s[at] == c
}

fn seek_pair(s: &Vec<char>, from: usize, c: char) -> (at: usize)
    requires
        from <= s.len(),
    ensures
        at == find_pair(s@, from as int, c),
        at == s.len() || (from <= at && at + 1 < s.len()),
{
    let mut i: usize = from;
    while i < s.len() && i + 1 < s.len()
        invariant
            from <= i <= s.len(),
            find_pair(s@, i as int, c) == find_pair(s@, from as int, c),
        decreases s.len() - i,
    {
        if s[i] == c && s[i + 1] == c {
            return i;
        }
        i += 1;
    }
    s.len()
}

/// The characters of `s` from `from` up to `to`.
fn slice(s: &Vec<char>, from: usize, to: usize) -> (part: Vec<char>)
    requires
        from <= to <= s.len(),
    ensures
        part@ == s@.subrange(from as int, to as int),
{
    let mut part: Vec<char> = Vec::new();
    let mut i: usize = from;
    while i < to
        invariant
            from <= i <= to,
            to <= s.len(),
            part@ == s@.subrange(from as int, i as int),
        decreases to - i,
    {
        part.push(s[i]);
        i += 1;
    }
    part
}

fn slice_is(s: &Vec<char>, from: usize, to: usize, word: &str) -> (r: bool)
    requires
        from <= to <= s.len(),
    ensures
        r == (s@.subrange(from as int, to as int) == word@),
{
    let part = slice(s, from, to);
    let expected = chars_of(word);
    crate::text::chars_eq(&part, &expected)
}

// ---------------------------------------------------------------------------
// Numbers
// ---------------------------------------------------------------------------

/// The value of a digit.
pub open spec fn digit_value(c: char) -> nat {
    if c == '1' {
        1
    } else if c == '2' {
        2
    } else if c == '3' {
        3
    } else if c == '4' {
        4
    } else if c == '5' {
        5
    } else if c == '6' {
        6
    } else if c == '7' {
        7
    } else if c == '8' {
        8
    } else if c == '9' {
        9
    } else {
        0
    }
}

/// The number that the digits write in decimal.
pub open spec fn number_of(digits: Seq<char>) -> nat
    decreases digits.len(),
{
    if digits.len() == 0 {
        0
    } else {
        number_of(digits.drop_last()) * 10 + digit_value(digits.last())
    }
}

/// A number does not get smaller when digits are written behind it.
pub proof fn lemma_number_grows(digits: Seq<char>, k: int)
    requires
        0 <= k <= digits.len(),
    ensures
        number_of(digits.take(k)) <= number_of(digits),
    decreases digits.len() - k,
{
    if k == digits.len() {
        assert(digits.take(k) == digits);
    } else {
        lemma_number_grows(digits, k + 1);
        assert(digits.take(k + 1).drop_last() == digits.take(k));
    }
}

fn digit_of(c: char) -> (v: u64)
    ensures
        v == digit_value(c),
        v <= 9,
{
    if c == '1' {
        1
    } else if c == '2' {
        2
    } else if c == '3' {
        3
    } else if c == '4' {
        4
    } else if c == '5' {
        5
    } else if c == '6' {
        6
    } else if c == '7' {
        7
    } else if c == '8' {
        8
    } else if c == '9' {
        9
    } else {
        0
    }
}

/// The number that `digits` write, if it is at most `limit`.
fn read_number(digits: &Vec<char>, limit: u32) -> (value: Option<u32>)
    ensures
        match value {
            Some(n) => n == number_of(digits@) && n <= limit,
            None => number_of(digits@) > limit,
        },
{
    let mut value: u64 = 0;
    let mut i: usize = 0;
    while i < digits.len()
        invariant
            i <= digits.len(),
            value == number_of(digits@.take(i as int)),
            value <= limit,
        decreases digits.len() - i,
    {
        let next = value * 10 + digit_of(digits[i]);
        proof {
            assert(digits@.take(i + 1).drop_last() == digits@.take(i as int));
            assert(next == number_of(digits@.take(i + 1)));
        }
        if next > limit as u64 {
            proof {
                lemma_number_grows(digits@, i + 1);
            }
            return None;
        }
        value = next;
        i += 1;
    }
    assert(digits@.take(digits.len() as int) == digits@);
    Some(value as u32)
}

// ---------------------------------------------------------------------------
// Directives
// ---------------------------------------------------------------------------

/// What follows a call that takes no filter: nothing but spaces.
pub open spec fn plain_end(d: Seq<char>, i: int, segment: SegmentView) -> Result<
    SegmentView,
    TemplateError,
> {
    let t = after_spaces(d, i);
    if t >= d.len() {
        Ok(segment)
    } else if d[t] == '|' {
        Err(TemplateError::UnknownFilter)
    } else {
        Err(TemplateError::Syntax)
    }
}

/// The arguments of `uuid`, from behind its opening bracket: none.
pub open spec fn uuid_call(d: Seq<char>, i: int) -> Result<SegmentView, TemplateError> {
    let q = after_spaces(d, i);
    if !holds(d, q, ')') {
        Err(TemplateError::Syntax)
    } else {
        plain_end(d, q + 1, SegmentView::Uuid)
    }
}

/// The arguments of `lorem`, from behind its opening bracket: `words=` and a
/// number.
pub open spec fn lorem_call(d: Seq<char>, i: int) -> Result<SegmentView, TemplateError> {
    let a = after_spaces(d, i);
    let b = run_end(d, a, CharClass::Word);
    let e = after_spaces(d, b);
    let x = after_spaces(d, e + 1);
    let y = run_end(d, x, CharClass::Digit);
    let q = after_spaces(d, y);
    if d.subrange(a, b) != "words"@ || !holds(d, e, '=') || y == x || !holds(d, q, ')') {
        Err(TemplateError::Syntax)
    } else if number_of(d.subrange(x, y)) > u32::MAX {
        Err(TemplateError::TooManyWords)
    } else {
        plain_end(d, q + 1, SegmentView::Lorem(number_of(d.subrange(x, y)) as u32))
    }
}

/// The `date` filter, from behind the bar: `date(format="...")`, and nothing
/// after it.
pub open spec fn date_filter(d: Seq<char>, i: int) -> Result<SegmentView, TemplateError> {
    let a = after_spaces(d, i);
    let b = run_end(d, a, CharClass::Word);
    let p = after_spaces(d, b);
    let a2 = after_spaces(d, p + 1);
    let b2 = run_end(d, a2, CharClass::Word);
    let e = after_spaces(d, b2);
    let o = after_spaces(d, e + 1);
    let c = run_end(d, o + 1, CharClass::Unquoted);
    let q = after_spaces(d, c + 1);
    if b == a {
        Err(TemplateError::Syntax)
    } else if d.subrange(a, b) != "date"@ {
        Err(TemplateError::UnknownFilter)
    } else if !holds(d, p, '(') || d.subrange(a2, b2) != "format"@ || !holds(d, e, '=') || !holds(
        d,
        o,
        '"',
    ) || !holds(d, c, '"') || !holds(d, q, ')') || after_spaces(d, q + 1) < d.len() {
        Err(TemplateError::Syntax)
    } else {
        Ok(SegmentView::Now(d.subrange(o + 1, c)))
    }
}

/// The arguments of `now`, from behind its opening bracket: none; a `date`
/// filter may follow.
pub open spec fn now_call(d: Seq<char>, i: int) -> Result<SegmentView, TemplateError> {
    let q = after_spaces(d, i);
    let t = after_spaces(d, q + 1);
    if !holds(d, q, ')') {
        Err(TemplateError::Syntax)
    } else if t >= d.len() {
        Ok(SegmentView::Now(default_time_format()))
    } else if d[t] != '|' {
        Err(TemplateError::Syntax)
    } else {
        date_filter(d, t + 1)
    }
}

/// The segment that the inside of a directive stands for.
pub open spec fn directive_of(d: Seq<char>) -> Result<SegmentView, TemplateError> {
    let a = after_spaces(d, 0);
    let b = run_end(d, a, CharClass::Word);
    let p = after_spaces(d, b);
    let name = d.subrange(a, b);
    if b == a || !holds(d, p, '(') {
        Err(TemplateError::Syntax)
    } else if name == "uuid"@ {
        uuid_call(d, p + 1)
    } else if name == "lorem"@ {
        lorem_call(d, p + 1)
    } else if name == "now"@ {
        now_call(d, p + 1)
    } else {
        Err(TemplateError::UnknownFunction)
    }
}

fn parse_plain_end(d: &Vec<char>, i: usize, segment: Segment) -> (res: Result<
    Segment,
    TemplateError,
>)
    requires
        i <= d.len(),
    ensures
        match res {
            Ok(s) => plain_end(d@, i as int, segment@) == Ok::<SegmentView, TemplateError>(s@),
            Err(e) => plain_end(d@, i as int, segment@) == Err::<SegmentView, TemplateError>(e),
        },
{
    let t = skip_spaces(d, i);
    if t >= d.len() {
        Ok(segment)
    } else if d[t] == '|' {
        Err(TemplateError::UnknownFilter)
    } else {
        Err(TemplateError::Syntax)
    }
}

fn parse_uuid_call(d: &Vec<char>, i: usize) -> (res: Result<Segment, TemplateError>)
    requires
        i <= d.len(),
    ensures
        match res {
            Ok(s) => uuid_call(d@, i as int) == Ok::<SegmentView, TemplateError>(s@),
            Err(e) => uuid_call(d@, i as int) == Err::<SegmentView, TemplateError>(e),
        },
{
    let q = skip_spaces(d, i);
    if !has_char(d, q, ')') {
        return Err(TemplateError::Syntax);
    }
    parse_plain_end(d, q + 1, Segment::Uuid)
}

fn parse_lorem_call(d: &Vec<char>, i: usize) -> (res: Result<Segment, TemplateError>)
    requires
        i <= d.len(),
    ensures
        match res {
            Ok(s) => lorem_call(d@, i as int) == Ok::<SegmentView, TemplateError>(s@),
            Err(e) => lorem_call(d@, i as int) == Err::<SegmentView, TemplateError>(e),
        },
{
    let a = skip_spaces(d, i);
    let b = scan(d, a, CharClass::Word);
    if !slice_is(d, a, b, "words") {
        return Err(TemplateError::Syntax);
    }
    let e = skip_spaces(d, b);
    if !has_char(d, e, '=') {
        return Err(TemplateError::Syntax);
    }
    let x = skip_spaces(d, e + 1);
    let y = scan(d, x, CharClass::Digit);
    if y == x {
        return Err(TemplateError::Syntax);
    }
    let q = skip_spaces(d, y);
    if !has_char(d, q, ')') {
        return Err(TemplateError::Syntax);
    }
    let digits = slice(d, x, y);
    match read_number(&digits, u32::MAX) {
        None => Err(TemplateError::TooManyWords),
        Some(words) => parse_plain_end(d, q + 1, Segment::Lorem(words)),
    }
}

fn parse_date_filter(d: &Vec<char>, i: usize) -> (res: Result<Segment, TemplateError>)
    requires
        i <= d.len(),
    ensures
        match res {
            Ok(s) => date_filter(d@, i as int) == Ok::<SegmentView, TemplateError>(s@),
            Err(e) => date_filter(d@, i as int) == Err::<SegmentView, TemplateError>(e),
        },
{
    let a = skip_spaces(d, i);
    let b = scan(d, a, CharClass::Word);
    if b == a {
        return Err(TemplateError::Syntax);
    }
    if !slice_is(d, a, b, "date") {
        return Err(TemplateError::UnknownFilter);
    }
    let p = skip_spaces(d, b);
    if !has_char(d, p, '(') {
        return Err(TemplateError::Syntax);
    }
    let a2 = skip_spaces(d, p + 1);
    let b2 = scan(d, a2, CharClass::Word);
    if !slice_is(d, a2, b2, "format") {
        return Err(TemplateError::Syntax);
    }
    let e = skip_spaces(d, b2);
    if !has_char(d, e, '=') {
        return Err(TemplateError::Syntax);
    }
    let o = skip_spaces(d, e + 1);
    if !has_char(d, o, '"') {
        return Err(TemplateError::Syntax);
    }
    let c = scan(d, o + 1, CharClass::Unquoted);
    if !has_char(d, c, '"') {
        return Err(TemplateError::Syntax);
    }
    let q = skip_spaces(d, c + 1);
    if !has_char(d, q, ')') {
        return Err(TemplateError::Syntax);
    }
    if skip_spaces(d, q + 1) < d.len() {
        return Err(TemplateError::Syntax);
    }
    let format = slice(d, o + 1, c);
    Ok(Segment::Now(string_of(&format)))
}

fn parse_now_call(d: &Vec<char>, i: usize) -> (res: Result<Segment, TemplateError>)
    requires
        i <= d.len(),
    ensures
        match res {
            Ok(s) => now_call(d@, i as int) == Ok::<SegmentView, TemplateError>(s@),
            Err(e) => now_call(d@, i as int) == Err::<SegmentView, TemplateError>(e),
        },
{
    let q = skip_spaces(d, i);
    if !has_char(d, q, ')') {
        return Err(TemplateError::Syntax);
    }
    let t = skip_spaces(d, q + 1);
    if t >= d.len() {
        return Ok(Segment::Now("%+".to_string()));
    }
    if d[t] != '|' {
        return Err(TemplateError::Syntax);
    }
    parse_date_filter(d, t + 1)
}

/// Parses the inside of a directive.
pub fn parse_directive(d: &Vec<char>) -> (res: Result<Segment, TemplateError>)
    ensures
        match res {
            Ok(s) => directive_of(d@) == Ok::<SegmentView, TemplateError>(s@),
            Err(e) => directive_of(d@) == Err::<SegmentView, TemplateError>(e),
        },
{
    let a = skip_spaces(d, 0);
    let b = scan(d, a, CharClass::Word);
    if b == a {
        return Err(TemplateError::Syntax);
    }
    let p = skip_spaces(d, b);
    if !has_char(d, p, '(') {
        return Err(TemplateError::Syntax);
    }
    if slice_is(d, a, b, "uuid") {
        parse_uuid_call(d, p + 1)
    } else if slice_is(d, a, b, "lorem") {
        parse_lorem_call(d, p + 1)
    } else if slice_is(d, a, b, "now") {
        parse_now_call(d, p + 1)
    } else {
        Err(TemplateError::UnknownFunction)
    }
}

// ---------------------------------------------------------------------------
// Templates
// ---------------------------------------------------------------------------

/// The text between `from` and `to` as a segment, or nothing where it is
/// empty.
pub open spec fn text_between(s: Seq<char>, from: int, to: int) -> Seq<SegmentView> {
    if from < to {
        seq![SegmentView::Text(s.subrange(from, to))]
    } else {
        Seq::empty()
    }
}

/// `head` before what `tail` gives, or the error of `tail`.
pub open spec fn prepend(
    head: Seq<SegmentView>,
    tail: Result<Seq<SegmentView>, TemplateError>,
) -> Result<Seq<SegmentView>, TemplateError> {
    match tail {
        Ok(rest) => Ok(head + rest),
        Err(e) => Err(e),
    }
}

/// The segments of `s` from `i` on. A directive opens at the next `{{` and
/// closes at the next `}}` after that; the first directive that is not
/// closed, or does not parse, decides the error.
pub open spec fn segments_from(s: Seq<char>, i: int) -> Result<Seq<SegmentView>, TemplateError>
    decreases s.len() - i,
{
    if i < 0 || i >= s.len() {
        Ok(Seq::empty())
    } else {
        let open = find_pair(s, i, '{');
        let close = find_pair(s, open + 2, '}');
        if open >= s.len() {
            Ok(text_between(s, i, s.len() as int))
        } else if close >= s.len() {
            Err(TemplateError::Unclosed)
        } else {
            match directive_of(s.subrange(open + 2, close)) {
                Err(e) => Err(e),
                Ok(segment) => {
                    proof {
                        lemma_find_pair_bounds(s, i, '{');
                        lemma_find_pair_bounds(s, open + 2, '}');
                    }
                    prepend(
                        text_between(s, i, open) + seq![segment],
                        segments_from(s, close + 2),
                    )
                },
            }
        }
    }
}

/// The template that the text `s` stands for.
pub open spec fn template_of(s: Seq<char>) -> Result<Seq<SegmentView>, TemplateError> {
    segments_from(s, 0)
}

/// A text without an opening `{{` is one segment of text, or none if it is
/// empty.
pub proof fn lemma_plain_text_template(s: Seq<char>)
    requires
        find_pair(s, 0, '{') >= s.len(),
    ensures
        template_of(s) == Ok::<Seq<SegmentView>, TemplateError>(text_between(s, 0, s.len() as int)),
{
}

/// Parsing never gives the error that is kept for rendering.
pub proof fn lemma_parse_is_not_rendering(s: Seq<char>, i: int)
    ensures
        segments_from(s, i) != Err::<Seq<SegmentView>, TemplateError>(
            TemplateError::NotRenderable,
        ),
    decreases s.len() - i,
{
    let open = find_pair(s, i, '{');
    let close = find_pair(s, open + 2, '}');
    if 0 <= i < s.len() && open < s.len() && close < s.len() {
        lemma_find_pair_bounds(s, i, '{');
        lemma_find_pair_bounds(s, open + 2, '}');
        lemma_parse_is_not_rendering(s, close + 2);
    }
}

/// Parses a template.
pub fn parse_template(text: &str) -> (res: Result<Template, TemplateError>)
    ensures
        match res {
            Ok(t) => template_of(text@) == Ok::<Seq<SegmentView>, TemplateError>(t@),
            Err(e) => template_of(text@) == Err::<Seq<SegmentView>, TemplateError>(e),
        },
        res != Err::<Template, TemplateError>(TemplateError::NotRenderable),
{
    proof {
        lemma_parse_is_not_rendering(text@, 0);
    }
    let s = chars_of(text);
    let mut segments: Vec<Segment> = Vec::new();
    let mut i: usize = 0;
    let ghost views = |seg: Segment| seg@;
    assert(segments@.map_values(views) =~= Seq::<SegmentView>::empty());
    assert(prepend(Seq::<SegmentView>::empty(), segments_from(s@, 0)) == segments_from(s@, 0));
    while i < s.len()
        invariant
            i <= s.len(),
            s@ == text@,
            views == |seg: Segment| seg@,
            prepend(segments@.map_values(views), segments_from(s@, i as int)) == template_of(
                text@,
            ),
        decreases s.len() - i,
    {
        let ghost before = segments@.map_values(views);
        let open = seek_pair(&s, i, '{');
        if open >= s.len() {
            let rest = slice(&s, i, s.len());
            segments.push(Segment::Text(string_of(&rest)));
            proof {
                assert(segments@.map_values(views) =~= before + text_between(
                    s@,
                    i as int,
                    s@.len() as int,
                ));
            }
            i = s.len();
            assert(segments@.map_values(views) + Seq::<SegmentView>::empty()
                == segments@.map_values(views));
        } else {
            let close = seek_pair(&s, open + 2, '}');
            if close >= s.len() {
                return Err(TemplateError::Unclosed);
            }
            let inner = slice(&s, open + 2, close);
            let segment = match parse_directive(&inner) {
                Ok(segment) => segment,
                Err(e) => {
                    return Err(e);
                },
            };
            if open > i {
                let lead = slice(&s, i, open);
                segments.push(Segment::Text(string_of(&lead)));
            }
            let ghost middle = segments@.map_values(views);
            assert(middle =~= before + text_between(s@, i as int, open as int));
            segments.push(segment);
            proof {
                let head = text_between(s@, i as int, open as int) + seq![segment@];
                assert(segments@.map_values(views) =~= before + head);
                let tail = segments_from(s@, close + 2);
                assert(segments_from(s@, i as int) == prepend(head, tail));
                match tail {
                    Ok(rest) => {
                        assert(before + (head + rest) =~= (before + head) + rest);
                    },
                    Err(_) => {},
                }
            }
            i = close + 2;
        }
    }
    let template = Template { segments };
    proof {
        assert(template@ == segments@.map_values(views));
        assert(template@ + Seq::<SegmentView>::empty() == template@);
    }
    Ok(template)
}

} // verus!
