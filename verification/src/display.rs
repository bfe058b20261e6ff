//! How the parts of an exchange are shown in the log: header lines in their
//! order, the text of a body, the protocol version, the reason phrase.

use crate::header::{header_views, Header, HeaderView};
use crate::text::{chars_eq, chars_lt, chars_of, escape_free, lemma_escape_free_is_kept, lemma_lex_transitive, lemma_lex_trichotomy, lex_le, lex_lt,
    string_of, strip_escapes, text_view, without_escapes};
use vstd::multiset::Multiset;
use vstd::prelude::*;
use vstd::relations::{sorted_by, total_ordering};
use vstd::seq_lib::{lemma_sorted_unique, to_multiset_build, to_multiset_insert};
use vstd::utf8::{decode_utf8, valid_utf8};

verus! {

// ---------------------------------------------------------------------------
// Header lines
// ---------------------------------------------------------------------------

/// A header as the log shows it: its name in train case and its value as
/// text.
#[derive(Clone, Debug, PartialEq, Eq)]
pub struct HeaderLine {
    pub key: Vec<char>,
    pub value: Vec<char>,
}

/// What a [`HeaderLine`] holds.
pub struct LineView {
    pub key: Seq<char>,
    pub value: Seq<char>,
}

impl View for HeaderLine {
    type V = LineView;

    open spec fn view(&self) -> LineView {
        LineView { key: self.key@, value: self.value@ }
    }
}

/// The views of a list of header lines, in order.
pub open spec fn line_views(lines: Seq<HeaderLine>) -> Seq<LineView> {
    lines.map_values(|l: HeaderLine| l@)
}

/// `name` in train case, as `to_train_case` gives it.
pub uninterp spec fn train_case_of(name: Seq<char>) -> Seq<char>;

/// `inflector::cases::traincase::to_train_case` depends on its argument
/// alone; what it returns is called [`train_case_of`].
#[verifier::external_body]
fn to_train_case(name: &str) -> (cased: String)
    ensures
        cased@ == train_case_of(name@),
{
    inflector::cases::traincase::to_train_case(name)
}

/// A byte that the log shows as it is: a tab or a visible ASCII character.
pub open spec fn is_visible_byte(b: u8) -> bool {
    b == 9 || (32 <= b < 127)
}

/// Every byte of `value` can be shown as it is.
pub open spec fn is_printable(value: Seq<u8>) -> bool {
    forall|i: int| 0 <= i < value.len() ==> is_visible_byte(#[trigger] value[i])
}

/// What stands for a value that cannot be shown.
pub open spec fn unprintable() -> Seq<char> {
    "<unprintable>"@
}

/// A header value as the log shows it: the value read as ASCII where every
/// byte is a tab or visible ASCII, a placeholder otherwise.
pub open spec fn shown_value(value: Seq<u8>) -> Seq<char> {
    if is_printable(value) {
        Seq::new(value.len(), |i: int| value[i] as char)
    } else {
        unprintable()
    }
}

/// The line that the log shows for a header.
pub open spec fn line_of(h: HeaderView) -> LineView {
    LineView { key: train_case_of(h.name), value: shown_value(h.value) }
}

/// A header value as the log shows it.
pub fn show_value(value: &Vec<u8>) -> (shown: Vec<char>)
    ensures
        shown@ == shown_value(value@),
{
    let mut shown: Vec<char> = Vec::new();
    let mut i: usize = 0;
    while i < value.len()
        invariant
            i <= value.len(),
            shown@.len() == i,
            forall|k: int| 0 <= k < i ==> is_visible_byte(#[trigger] value@[k]),
            forall|k: int| 0 <= k < i ==> #[trigger] shown@[k] == value@[k] as char,
        decreases value.len() - i,
    {
        let b = value[i];
        if b == 9 || (b >= 32 && b < 127) {
            shown.push(b as char);
        } else {
            assert(!is_visible_byte(value@[i as int]));
            return chars_of("<unprintable>");
        }
        i += 1;
    }
    assert(shown@ =~= Seq::new(value@.len(), |k: int| value@[k] as char));
    shown
}

/// The order of header lines: by key, and by value where the keys are the
/// same; each lexicographic by code point.
pub open spec fn line_le(x: LineView, y: LineView) -> bool {
    lex_lt(x.key, y.key) || (x.key == y.key && lex_le(x.value, y.value))
}

/// [`line_le`] as a relation.
pub open spec fn line_order() -> spec_fn(LineView, LineView) -> bool {
    |x: LineView, y: LineView| line_le(x, y)
}

/// The order of header lines is total.
pub proof fn lemma_line_order_total()
    ensures
        total_ordering(line_order()),
{
    let r = line_order();
    assert forall|x: LineView| #[trigger] r(x, x) by {}
    assert forall|x: LineView, y: LineView| #[trigger] r(x, y) && #[trigger] r(y, x) implies x
        == y by {
        lemma_lex_trichotomy(x.key, y.key);
        lemma_lex_trichotomy(x.value, y.value);
    }
    assert forall|x: LineView, y: LineView, z: LineView| #[trigger]
        r(x, y) && #[trigger] r(y, z) implies r(x, z) by {
        lemma_lex_trichotomy(x.key, y.key);
        lemma_lex_trichotomy(y.key, z.key);
        if lex_lt(x.key, y.key) && lex_lt(y.key, z.key) {
            lemma_lex_transitive(x.key, y.key, z.key, 0);
        }
        if x.key == y.key && y.key == z.key {
            if lex_lt(x.value, y.value) && lex_lt(y.value, z.value) {
                lemma_lex_transitive(x.value, y.value, z.value, 0);
            }
        }
    }
    assert forall|x: LineView, y: LineView| #[trigger] r(x, y) || #[trigger] r(y, x) by {
        lemma_lex_trichotomy(x.key, y.key);
        lemma_lex_trichotomy(x.value, y.value);
    }
}

/// The lines of `headers`, in the order of the headers.
pub open spec fn unsorted_lines(headers: Seq<HeaderView>) -> Seq<LineView> {
    Seq::new(headers.len(), |i: int| line_of(headers[i]))
}

/// The lines of `headers` in the order in which the log shows them.
pub open spec fn sorted_lines(headers: Seq<HeaderView>) -> Seq<LineView> {
    unsorted_lines(headers).sort_by(line_order())
}

/// The lines that the log shows are the lines of the headers, each as often
/// as it is there, in the order of header lines; so their keys never go
/// down.
pub proof fn lemma_lines_sorted_by_name(headers: Seq<HeaderView>)
    ensures
        sorted_by(sorted_lines(headers), line_order()),
        sorted_lines(headers).to_multiset() == unsorted_lines(headers).to_multiset(),
        sorted_lines(headers).len() == headers.len(),
        forall|i: int, j: int|
            0 <= i < j < sorted_lines(headers).len() ==> lex_le(
                (#[trigger] sorted_lines(headers)[i]).key,
                (#[trigger] sorted_lines(headers)[j]).key,
            ),
{
    broadcast use vstd::seq_lib::group_to_multiset_ensures;

    lemma_line_order_total();
    unsorted_lines(headers).lemma_sort_by_ensures(line_order());
    let sorted = sorted_lines(headers);
    vstd::seq_lib::to_multiset_len(sorted);
    vstd::seq_lib::to_multiset_len(unsorted_lines(headers));
    assert forall|i: int, j: int| 0 <= i < j < sorted.len() implies lex_le(
        (#[trigger] sorted[i]).key,
        (#[trigger] sorted[j]).key,
    ) by {
        assert(line_order()(sorted[i], sorted[j]));
    }
}

/// Whether `x` stands before `y`, or may.
fn line_before(x: &HeaderLine, y: &HeaderLine) -> (r: bool)
    ensures
        r == line_le(x@, y@),
{
    if chars_lt(&x.key, &y.key) {
        true
    } else if chars_eq(&x.key, &y.key) {
        chars_eq(&x.value, &y.value) || chars_lt(&x.value, &y.value)
    } else {
        false
    }
}

/// Puts `lines` in order.
pub fn sort_lines(lines: Vec<HeaderLine>) -> (sorted: Vec<HeaderLine>)
    ensures
        line_views(sorted@) == line_views(lines@).sort_by(line_order()),
{
    let ghost all = line_views(lines@);
    let mut rest = lines;
    let mut sorted: Vec<HeaderLine> = Vec::new();
    proof {
        broadcast use vstd::seq_lib::group_to_multiset_ensures;
        broadcast use vstd::multiset::group_multiset_axioms;

        lemma_line_order_total();
        assert(line_views(sorted@) =~= Seq::<LineView>::empty());
        assert(line_views(sorted@).to_multiset().len() == 0);
        assert(line_views(sorted@).to_multiset() =~= Multiset::<LineView>::empty());
        assert(line_views(sorted@).to_multiset().add(all.to_multiset()) =~= all.to_multiset());
    }
    while rest.len() > 0
        invariant
            total_ordering(line_order()),
            sorted_by(line_views(sorted@), line_order()),
            line_views(sorted@).to_multiset().add(line_views(rest@).to_multiset())
                == all.to_multiset(),
        decreases rest.len(),
    {
        let ghost before_rest = line_views(rest@);
        let ghost before_sorted = line_views(sorted@);
        let x = rest.pop().unwrap();
        proof {
            assert(line_views(rest@) =~= before_rest.drop_last());
            assert(before_rest =~= line_views(rest@).push(x@));
            to_multiset_build(line_views(rest@), x@);
        }
        let mut p: usize = 0;
        while p < sorted.len() && line_before(&sorted[p], &x)
            invariant
                p <= sorted.len(),
                line_views(sorted@) == before_sorted,
                forall|j: int| 0 <= j < p ==> line_le(#[trigger] before_sorted[j], x@),
            decreases sorted.len() - p,
        {
            assert(before_sorted[p as int] == sorted@[p as int]@);
            p += 1;
        }
        proof {
            if p < sorted.len() {
                assert(before_sorted[p as int] == sorted@[p as int]@);
                assert(!line_le(before_sorted[p as int], x@));
            }
        }
        sorted.insert(p, x);
        proof {
            let now = line_views(sorted@);
            let r = line_order();
            assert(now =~= before_sorted.insert(p as int, x@));
            to_multiset_insert(before_sorted, p as int, x@);
            assert(now.to_multiset().add(line_views(rest@).to_multiset()) =~= all.to_multiset());
            assert forall|i: int, j: int| 0 <= i < j < now.len() implies #[trigger] r(
                now[i],
                now[j],
            ) by {
                if j < p {
                    assert(r(before_sorted[i], before_sorted[j]));
                } else if j == p {
                    assert(line_le(before_sorted[i], x@));
                } else if i < p {
                    assert(r(before_sorted[i], before_sorted[j - 1]));
                } else if i == p {
                    let first = before_sorted[p as int];
                    assert(r(first, x@) || r(x@, first));
                    if j - 1 > p {
                        assert(r(first, before_sorted[j - 1]));
                    }
                    assert(r(x@, first) && r(first, before_sorted[j - 1]) ==> r(
                        x@,
                        before_sorted[j - 1],
                    ));
                } else {
                    assert(r(before_sorted[i - 1], before_sorted[j - 1]));
                }
            }
        }
    }
    proof {
        broadcast use vstd::seq_lib::group_to_multiset_ensures;
        broadcast use vstd::multiset::group_multiset_axioms;

        assert(line_views(rest@) =~= Seq::<LineView>::empty());
        assert(line_views(rest@).to_multiset().len() == 0);
        assert(line_views(rest@).to_multiset() =~= Multiset::<LineView>::empty());
        assert(line_views(sorted@).to_multiset() =~= all.to_multiset());
        all.lemma_sort_by_ensures(line_order());
        lemma_sorted_unique(line_views(sorted@), all.sort_by(line_order()), line_order());
    }
    sorted
}

/// The lines that the log shows for `headers`, in order.
pub fn header_lines(headers: &Vec<Header>) -> (lines: Vec<HeaderLine>)
    ensures
        line_views(lines@) == sorted_lines(header_views(headers@)),
{
    let mut lines: Vec<HeaderLine> = Vec::new();
    let mut i: usize = 0;
    while i < headers.len()
        invariant
            i <= headers.len(),
            line_views(lines@) == unsorted_lines(header_views(headers@)).take(i as int),
        decreases headers.len() - i,
    {
        let cased = to_train_case(headers[i].name.as_str());
        let line = HeaderLine { key: chars_of(cased.as_str()), value: show_value(&headers[i].value) };
        let ghost before = line_views(lines@);
        let ghost all = unsorted_lines(header_views(headers@));
        assert(header_views(headers@)[i as int] == headers@[i as int]@);
        assert(line@ == all[i as int]);
        lines.push(line);
        assert(line_views(lines@) =~= before.push(all[i as int]));
        assert(all.take(i + 1) =~= all.take(i as int).push(all[i as int]));
        i += 1;
    }
    assert(unsorted_lines(header_views(headers@)).take(headers.len() as int) == unsorted_lines(
        header_views(headers@),
    ));
    sort_lines(lines)
}

// ---------------------------------------------------------------------------
// Protocol version and reason phrase
// ---------------------------------------------------------------------------

/// The first index from `i` on at which `s` holds `c`, or the length of `s`.
pub open spec fn index_of(s: Seq<char>, c: char, i: int) -> int
    decreases s.len() - i,
{
    if i < 0 || i >= s.len() {
        s.len() as int
    } else if s[i] == c {
        i
    } else {
        index_of(s, c, i + 1)
    }
}

/// A character is found at or after the start of the search, or at the
/// length of the text.
pub proof fn lemma_index_of_bounds(s: Seq<char>, c: char, i: int)
    requires
        0 <= i <= s.len(),
    ensures
        i <= index_of(s, c, i) <= s.len(),
    decreases s.len() - i,
{
    if i < s.len() && s[i] != c {
        lemma_index_of_bounds(s, c, i + 1);
    }
}

/// What stands for a protocol that names no version.
pub open spec fn unknown_version() -> Seq<char> {
    "unknown"@
}

/// The version in a protocol text such as `HTTP/1.1`: what stands between
/// the first slash and the next one, or the end.
pub open spec fn version_of(protocol: Seq<char>) -> Seq<char> {
    let first = index_of(protocol, '/', 0);
    if first >= protocol.len() {
        unknown_version()
    } else {
        protocol.subrange(first + 1, index_of(protocol, '/', first + 1))
    }
}

/// The first index from `from` on at which `s` holds `c`, or the length of `s`.
fn find_char(s: &Vec<char>, c: char, from: usize) -> (at: usize)
    requires
        from <= s.len(),
    ensures
        at == index_of(s@, c, from as int),
        from <= at <= s.len(),
{
    let mut i: usize = from;
    while i < s.len() && s[i] != c
        invariant
            from <= i <= s.len(),
            index_of(s@, c, i as int) == index_of(s@, c, from as int),
        decreases s.len() - i,
    {
        i += 1;
    }
    i
}

/// The version that a protocol text names.
pub fn protocol_version(protocol: &str) -> (version: String)
    ensures
        version@ == version_of(protocol@),
{
    let chars = chars_of(protocol);
    let first = find_char(&chars, '/', 0);
    if first >= chars.len() {
        return "unknown".to_string();
    }
    let next = find_char(&chars, '/', first + 1);
    let mut part: Vec<char> = Vec::new();
    let mut i: usize = first + 1;
    while i < next
        invariant
            first + 1 <= i <= next,
            next <= chars.len(),
            part@ == chars@.subrange(first + 1, i as int),
        decreases next - i,
    {
        part.push(chars[i]);
        i += 1;
    }
    string_of(&part)
}

/// The canonical reason phrase of a status code, if it has one.
pub uninterp spec fn reason_of(code: u16) -> Option<Seq<char>>;

/// `StatusCode::from_u16` and then `StatusCode::canonical_reason`. Both
/// depend on the code alone; what comes of them is called [`reason_of`]:
/// `None` where the code is no status code or has no canonical reason.
#[verifier::external_body]
fn canonical_reason(code: u16) -> (reason: Option<String>)
    ensures
        match reason {
            Some(text) => reason_of(code) == Some(text@),
            None => reason_of(code) is None,
        },
{
    match hyper::StatusCode::from_u16(code) {
        Ok(status) => match status.canonical_reason() {
            Some(text) => Some(text.to_string()),
            None => None,
        },
        Err(_) => None,
    }
}

/// The reason phrase that the log shows for `code`: its canonical reason, or
/// nothing.
pub open spec fn reason_text(code: u16) -> Seq<char> {
    match reason_of(code) {
        Some(text) => text,
        None => Seq::empty(),
    }
}

/// The reason phrase that the log shows for `code`.
pub fn reason_phrase(code: u16) -> (text: String)
    ensures
        text@ == reason_text(code),
{
    match canonical_reason(code) {
        Some(text) => text,
        None => String::new(),
    }
}

// ---------------------------------------------------------------------------
// Bodies
// ---------------------------------------------------------------------------

/// The bytes read as text, as `String::from_utf8_lossy` gives it.
pub uninterp spec fn lossy_text_of(bytes: Seq<u8>) -> Seq<char>;

/// `String::from_utf8_lossy` depends on its argument alone; what it returns
/// is called [`lossy_text_of`]. Bytes that are UTF-8 are decoded as they are.
#[verifier::external_body]
fn lossy_text(bytes: &Vec<u8>) -> (text: String)
    ensures
        text@ == lossy_text_of(bytes@),
        valid_utf8(bytes@) ==> text@ == decode_utf8(bytes@),
{
    String::from_utf8_lossy(bytes).into_owned()
}

/// The JSON text written anew with indentation, as `serde_json` gives it;
/// `None` where the text is no JSON.
pub uninterp spec fn pretty_json_of(text: Seq<char>) -> Option<Seq<char>>;

/// `serde_json::from_str` to a `Value` and then `serde_json::to_string_pretty`.
/// Both depend on their argument alone; what comes of them is called
/// [`pretty_json_of`]. The writer puts every control character of a string
/// down as an escape of JSON, so what it gives holds no escape character.
#[verifier::external_body]
fn pretty_json(text: &str) -> (pretty: Option<String>)
    ensures
        match pretty {
            Some(p) => pretty_json_of(text@) == Some(p@) && escape_free(p@),
            None => pretty_json_of(text@) is None,
        },
{
    match serde_json::from_str::<serde_json::Value>(text) {
        Ok(value) => match serde_json::to_string_pretty(&value) {
            Ok(pretty) => Some(pretty),
            Err(_) => None,
        },
        Err(_) => None,
    }
}

/// `ToColoredJson::to_colored_json_auto`. Whether it writes colours depends
/// on the terminal, so nothing is stated of what it returns.
#[verifier::external_body]
fn colored_json(text: &str) -> (colored: Option<String>) {
    match colored_json::ToColoredJson::to_colored_json_auto(text) {
        Ok(colored) => Some(colored),
        Err(_) => None,
    }
}

/// A letter of ASCII in lower case, any other character as it is.
pub open spec fn ascii_lower(c: char) -> char {
    if 'A' <= c <= 'Z' {
        ((c as u8) + 32) as char
    } else {
        c
    }
}

/// `name` reads `content-type`, whatever the case of its letters.
pub open spec fn is_content_type(name: Seq<char>) -> bool {
    name.map_values(|c: char| ascii_lower(c)) == "content-type"@
}

/// The bytes of `application/json`.
pub open spec fn json_type() -> Seq<u8> {
    seq![97u8, 112, 112, 108, 105, 99, 97, 116, 105, 111, 110, 47, 106, 115, 111, 110]
}

/// The value of the first content type header of `headers` from `i` on.
pub open spec fn content_type_from(headers: Seq<HeaderView>, i: int) -> Option<Seq<u8>>
    decreases headers.len() - i,
{
    if i < 0 || i >= headers.len() {
        None
    } else if is_content_type(headers[i].name) {
        Some(headers[i].value)
    } else {
        content_type_from(headers, i + 1)
    }
}

/// The headers say that the body is JSON: the first content type among them
/// is exactly `application/json`.
pub open spec fn says_json(headers: Seq<HeaderView>) -> bool {
    content_type_from(headers, 0) == Some(json_type())
}

fn lower(c: char) -> (l: char)
    ensures
        l == ascii_lower(c),
{
    if c >= 'A' && c <= 'Z' {
        ((c as u8) + 32) as char
    } else {
        c
    }
}

fn names_content_type(name: &str) -> (r: bool)
    ensures
        r == is_content_type(name@),
{
    let chars = chars_of(name);
    let mut lowered: Vec<char> = Vec::new();
    let mut i: usize = 0;
    while i < chars.len()
        invariant
            i <= chars.len(),
            lowered@ == chars@.take(i as int).map_values(|c: char| ascii_lower(c)),
        decreases chars.len() - i,
    {
        lowered.push(lower(chars[i]));
        assert(lowered@ =~= chars@.take(i + 1).map_values(|c: char| ascii_lower(c)));
        i += 1;
    }
    assert(chars@.take(chars.len() as int) == chars@);
    let expected = chars_of("content-type");
    chars_eq(&lowered, &expected)
}

fn is_json_type(value: &Vec<u8>) -> (r: bool)
    ensures
        r == (value@ == json_type()),
{
    let expected: [u8; 16] = [97, 112, 112, 108, 105, 99, 97, 116, 105, 111, 110, 47, 106, 115, 111, 110];
    if value.len() != 16 {
        return false;
    }
    let mut i: usize = 0;
    while i < 16
        invariant
            i <= 16,
            value.len() == 16,
            expected@ == json_type(),
            forall|k: int| 0 <= k < i ==> value@[k] == json_type()[k],
        decreases 16 - i,
    {
        if value[i] != expected[i] {
            return false;
        }
        i += 1;
    }
    assert(value@ =~= json_type());
    true
}

/// Whether the headers say that the body is JSON.
pub fn is_json(headers: &Vec<Header>) -> (r: bool)
    ensures
        r == says_json(header_views(headers@)),
{
    let mut i: usize = 0;
    while i < headers.len()
        invariant
            i <= headers.len(),
            content_type_from(header_views(headers@), i as int) == content_type_from(
                header_views(headers@),
                0,
            ),
        decreases headers.len() - i,
    {
        assert(header_views(headers@)[i as int] == headers@[i as int]@);
        if names_content_type(headers[i].name.as_str()) {
            return is_json_type(&headers[i].value);
        }
        i += 1;
    }
    false
}

/// The text that the log shows for a body, made of what was made of it.
///
/// A body that is not said to be JSON is shown as it came, and so is one
/// that could not be written anew. Every other body is shown written anew:
/// in colours where the coloured text reads as the new writing once its
/// escape sequences are dropped, and without colours otherwise.
pub open spec fn body_text_of(
    json: bool,
    raw: Seq<char>,
    pretty: Option<Seq<char>>,
    colored: Option<Seq<char>>,
) -> Seq<char> {
    if !json {
        raw
    } else {
        match pretty {
            None => raw,
            Some(p) => match colored {
                Some(c) => if without_escapes(c) == p {
                    c
                } else {
                    p
                },
                None => p,
            },
        }
    }
}

/// Picks the text to show for a body from what was made of it.
pub fn select_body_text(
    json: bool,
    raw: String,
    pretty: Option<String>,
    colored: Option<String>,
) -> (text: String)
    ensures
        text@ == body_text_of(json, raw@, text_view(pretty), text_view(colored)),
{
    if !json {
        return raw;
    }
    match pretty {
        None => raw,
        Some(p) => match colored {
            Some(c) => {
                let read = strip_escapes(c.as_str());
                if read == p {
                    c
                } else {
                    p
                }
            },
            None => p,
        },
    }
}

/// The body is shown written anew: it is said to be JSON, and it is JSON.
pub open spec fn shows_pretty(headers: Seq<HeaderView>, body: Seq<u8>) -> bool {
    says_json(headers) && pretty_json_of(lossy_text_of(body)) is Some
}

/// The text that the log shows for a body, colours left out: the JSON
/// written anew where the body is shown so, and else the body as it came,
/// read as UTF-8 with a replacement for what is not.
pub open spec fn plain_body_of(headers: Seq<HeaderView>, body: Seq<u8>) -> Seq<char> {
    if shows_pretty(headers, body) {
        pretty_json_of(lossy_text_of(body))->Some_0
    } else {
        lossy_text_of(body)
    }
}

/// The text that the log shows for `body`, sent with `headers`, colours left
/// out. A body of UTF-8 that is not shown written anew is shown decoded.
pub fn plain_body(headers: &Vec<Header>, body: &Vec<u8>) -> (text: String)
    ensures
        text@ == plain_body_of(header_views(headers@), body@),
        valid_utf8(body@) && !shows_pretty(header_views(headers@), body@) ==> text@ == decode_utf8(
            body@,
        ),
{
    let raw = lossy_text(body);
    if !is_json(headers) {
        return raw;
    }
    let pretty = pretty_json(raw.as_str());
    select_body_text(true, raw, pretty, None)
}

/// The text that the log shows for `body`, sent with `headers`.
///
/// A body that is not said to be JSON, or is no JSON, is shown as it came:
/// decoded where it is UTF-8, and else with a replacement for what is not.
/// Every other body is shown written anew, and may be coloured, as the
/// terminal decides; with the escape sequences dropped it is the JSON
/// written anew.
pub fn shown_body(headers: &Vec<Header>, body: &Vec<u8>) -> (text: String)
    ensures
        !shows_pretty(header_views(headers@), body@) ==> text@ == lossy_text_of(body@),
        valid_utf8(body@) && !shows_pretty(header_views(headers@), body@) ==> text@ == decode_utf8(
            body@,
        ),
        says_json(header_views(headers@)) ==> (pretty_json_of(lossy_text_of(body@)) matches Some(p)
            ==> without_escapes(text@) == p),
{
    let raw = lossy_text(body);
    if !is_json(headers) {
        return raw;
    }
    let pretty = pretty_json(raw.as_str());
    let colored = match &pretty {
        Some(p) => colored_json(p.as_str()),
        None => None,
    };
    proof {
        if pretty is Some {
            lemma_escape_free_is_kept(pretty->0@);
        }
    }
    select_body_text(true, raw, pretty, colored)
}

} // verus!
