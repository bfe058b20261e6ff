//! Rendering a template into the body of one response.
//!
//! The values of the directives come from outside: a random identifier,
//! filler text, the clock. Each is held against what its directive asks for
//! before it goes into the body, so a body that is given out fits its
//! template whatever came back.

use crate::clock::format_now;
use crate::style::{concat_all, join_pieces, string_views};
use crate::template::{in_class, parse_template, template_of, CharClass, Segment, SegmentView,
    Template, TemplateError};
use crate::text::chars_of;
use vstd::prelude::*;

verus! {

/// Why a template could not be rendered.
#[derive(Clone, Copy, Debug, PartialEq, Eq, Structural)]
pub enum RenderError {
    /// There is not one value for each segment.
    WrongPieceCount,
    /// The identifier given for a `uuid` directive is no version 4 UUID.
    MalformedUuid,
    /// The text given for a `lorem` directive has not the words asked for.
    WrongWordCount,
    /// A value could not be had, as where the time cannot be written in the
    /// format asked for, or the text given for a text is another text.
    Unavailable,
}

// ---------------------------------------------------------------------------
// What a value must look like
// ---------------------------------------------------------------------------

/// A digit of lower-case hexadecimal.
pub open spec fn is_hex(c: char) -> bool {
    ('0' <= c <= '9') || ('a' <= c <= 'f')
}

/// Where a UUID holds its hyphens.
pub open spec fn is_hyphen_place(i: int) -> bool {
    i == 8 || i == 13 || i == 18 || i == 23
}

/// The text of a version 4 UUID: 36 characters, hyphens at the four places,
/// hexadecimal digits elsewhere, the version 4 and a variant of 8, 9, a or b.
pub open spec fn is_uuid_v4(s: Seq<char>) -> bool {
    &&& s.len() == 36
    &&& forall|i: int|
        0 <= i < 36 ==> if is_hyphen_place(i) {
            #[trigger] s[i] == '-'
        } else {
            is_hex(s[i])
        }
    &&& s[14] == '4'
    &&& (s[19] == '8' || s[19] == '9' || s[19] == 'a' || s[19] == 'b')
}

/// A space, tab, line feed or carriage return.
pub open spec fn is_blank(c: char) -> bool {
    in_class(CharClass::Space, c)
}

/// A word starts at `i`: a character that is not blank, at the start of the
/// text or behind a blank.
pub open spec fn starts_word(s: Seq<char>, i: int) -> bool {
    0 <= i < s.len() && !is_blank(s[i]) && (i == 0 || is_blank(s[i - 1]))
}

/// How many words start before `k`.
pub open spec fn words_before(s: Seq<char>, k: int) -> nat
    decreases k,
{
    if k <= 0 {
        0
    } else {
        words_before(s, k - 1) + if starts_word(s, k - 1) {
            1nat
        } else {
            0nat
        }
    }
}

/// How many words the text holds: runs of characters with blanks between
/// them.
pub open spec fn word_count(s: Seq<char>) -> nat {
    words_before(s, s.len() as int)
}

/// Whether `piece` may stand for `segment` in a body.
pub open spec fn fits(segment: SegmentView, piece: Seq<char>) -> bool {
    match segment {
        SegmentView::Text(text) => piece == text,
        SegmentView::Uuid => is_uuid_v4(piece),
        SegmentView::Lorem(words) => word_count(piece) == words,
        SegmentView::Now(_) => true,
    }
}

/// What is wrong with `piece` for `segment`.
pub open spec fn misfit(segment: SegmentView) -> RenderError {
    match segment {
        SegmentView::Uuid => RenderError::MalformedUuid,
        SegmentView::Lorem(_) => RenderError::WrongWordCount,
        _ => RenderError::Unavailable,
    }
}

/// There is one piece for each segment, and each fits.
pub open spec fn all_fit(template: Seq<SegmentView>, pieces: Seq<Seq<char>>) -> bool {
    &&& pieces.len() == template.len()
    &&& forall|i: int| 0 <= i < template.len() ==> fits(template[i], #[trigger] pieces[i])
}

/// The first segment from `i` on whose piece does not fit, or the number of
/// segments.
pub open spec fn first_misfit(template: Seq<SegmentView>, pieces: Seq<Seq<char>>, i: int) -> int
    decreases template.len() - i,
{
    if i < 0 || i >= template.len() || i >= pieces.len() {
        template.len() as int
    } else if !fits(template[i], pieces[i]) {
        i
    } else {
        first_misfit(template, pieces, i + 1)
    }
}

/// The body made of `pieces` for `template`: the pieces one after the other
/// where each fits its segment, else the fault of the first that does not.
pub open spec fn body_of(template: Seq<SegmentView>, pieces: Seq<Seq<char>>) -> Result<
    Seq<char>,
    RenderError,
> {
    if pieces.len() != template.len() {
        Err(RenderError::WrongPieceCount)
    } else if first_misfit(template, pieces, 0) < template.len() {
        Err(misfit(template[first_misfit(template, pieces, 0)]))
    } else {
        Ok(concat_all(pieces))
    }
}

/// Where no misfit is found from `i` on, every piece from `i` on fits.
pub proof fn lemma_no_misfit(template: Seq<SegmentView>, pieces: Seq<Seq<char>>, i: int)
    requires
        0 <= i,
        pieces.len() == template.len(),
        first_misfit(template, pieces, i) >= template.len(),
    ensures
        forall|k: int| i <= k < template.len() ==> fits(template[k], #[trigger] pieces[k]),
    decreases template.len() - i,
{
    if i < template.len() {
        lemma_no_misfit(template, pieces, i + 1);
    }
}

/// A body is given out exactly where all pieces fit, and is then the pieces
/// one after the other.
pub proof fn lemma_body_fits(template: Seq<SegmentView>, pieces: Seq<Seq<char>>)
    ensures
        body_of(template, pieces) is Ok <==> all_fit(template, pieces),
        body_of(template, pieces) matches Ok(body) ==> body == concat_all(pieces),
{
    if pieces.len() == template.len() {
        if first_misfit(template, pieces, 0) >= template.len() {
            lemma_no_misfit(template, pieces, 0);
        } else {
            lemma_misfit_found(template, pieces, 0);
        }
    }
}

/// A misfit that is found is one.
pub proof fn lemma_misfit_found(template: Seq<SegmentView>, pieces: Seq<Seq<char>>, i: int)
    requires
        0 <= i,
        pieces.len() == template.len(),
        first_misfit(template, pieces, i) < template.len(),
    ensures
        i <= first_misfit(template, pieces, i),
        !fits(
            template[first_misfit(template, pieces, i)],
            pieces[first_misfit(template, pieces, i)],
        ),
    decreases template.len() - i,
{
    if i < template.len() && fits(template[i], pieces[i]) {
        lemma_misfit_found(template, pieces, i + 1);
    }
}

/// Whether `text` is the text of a version 4 UUID.
pub fn looks_like_uuid(text: &str) -> (r: bool)
    ensures
        r == is_uuid_v4(text@),
{
    let s = chars_of(text);
    if s.len() != 36 {
        return false;
    }
    let mut i: usize = 0;
    while i < 36
        invariant
            i <= 36,
            s@.len() == 36,
            s@ == text@,
            forall|k: int|
                0 <= k < i ==> if is_hyphen_place(k) {
                    #[trigger] s@[k] == '-'
                } else {
                    is_hex(s@[k])
                },
        decreases 36 - i,
    {
        let c = s[i];
        if i == 8 || i == 13 || i == 18 || i == 23 {
            if c != '-' {
                assert(is_hyphen_place(i as int) && s@[i as int] != '-');
                return false;
            }
        } else if !((c >= '0' && c <= '9') || (c >= 'a' && c <= 'f')) {
            assert(!is_hyphen_place(i as int) && !is_hex(s@[i as int]));
            return false;
        }
        i += 1;
    }
    let variant = s[19];
    s[14] == '4' && (variant == '8' || variant == '9' || variant == 'a' || variant == 'b')
}

/// How many words `text` holds.
pub fn count_words(text: &str) -> (n: usize)
    ensures
        n == word_count(text@),
{
    let s = chars_of(text);
    let mut n: usize = 0;
    let mut after_blank = true;
    let mut i: usize = 0;
    while i < s.len()
        invariant
            i <= s.len(),
            s@ == text@,
            n == words_before(s@, i as int),
            n <= i,
            after_blank == (i == 0 || is_blank(s@[i - 1])),
        decreases s.len() - i,
    {
        let c = s[i];
        let blank = c == ' ' || c == '\t' || c == '\n' || c == '\r';
        if !blank && after_blank {
            n += 1;
        }
        after_blank = blank;
        i += 1;
    }
    n
}

/// Whether `piece` may stand for `segment`.
pub fn piece_fits(segment: &Segment, piece: &str) -> (r: bool)
    ensures
        r == fits(segment@, piece@),
{
    match segment {
        Segment::Text(text) => {
            let a = chars_of(text.as_str());
            let b = chars_of(piece);
            crate::text::chars_eq(&b, &a)
        },
        Segment::Uuid => looks_like_uuid(piece),
        Segment::Lorem(words) => {
            let n = count_words(piece);
            n == *words as usize
        },
        Segment::Now(_) => true,
    }
}

fn fault_of(segment: &Segment) -> (e: RenderError)
    ensures
        e == misfit(segment@),
{
    match segment {
        Segment::Uuid => RenderError::MalformedUuid,
        Segment::Lorem(_) => RenderError::WrongWordCount,
        _ => RenderError::Unavailable,
    }
}

/// The body made of `pieces`, one for each segment of `template`.
///
/// Each piece is held against its segment: text must be the text of the
/// segment, an identifier a version 4 UUID, filler text of the number of
/// words asked for. The first piece that does not fit decides the error.
pub fn assemble(template: &Template, pieces: &Vec<String>) -> (res: Result<String, RenderError>)
    ensures
        match res {
            Ok(body) => body_of(template@, string_views(pieces@)) == Ok::<Seq<char>, RenderError>(
                body@,
            ),
            Err(e) => body_of(template@, string_views(pieces@)) == Err::<Seq<char>, RenderError>(
                e,
            ),
        },
{
    if pieces.len() != template.segments.len() {
        return Err(RenderError::WrongPieceCount);
    }
    let ghost t = template@;
    let ghost p = string_views(pieces@);
    let mut i: usize = 0;
    while i < pieces.len()
        invariant
            i <= pieces.len(),
            pieces.len() == template.segments.len(),
            t == template@,
            p == string_views(pieces@),
            first_misfit(t, p, i as int) == first_misfit(t, p, 0),
        decreases pieces.len() - i,
    {
        assert(t[i as int] == template.segments@[i as int]@);
        assert(p[i as int] == pieces@[i as int]@);
        if !piece_fits(&template.segments[i], pieces[i].as_str()) {
            return Err(fault_of(&template.segments[i]));
        }
        i += 1;
    }
    Ok(join_pieces(pieces))
}

// ---------------------------------------------------------------------------
// Where the values come from
// ---------------------------------------------------------------------------

/// `Uuid::new_v4`, shown as a string. The identifier is random; every one
/// has the version 4 and the variant of RFC 4122, and is shown in lower-case
/// hexadecimal digits with its four hyphens. It is made from the random
/// numbers of the system; without them the call does not return.
#[verifier::external_body]
fn fresh_uuid() -> (text: String)
    ensures
        is_uuid_v4(text@),
{
    uuid::Uuid::new_v4().to_string()
}

/// The filler text of so many words, as `lipsum` gives it.
pub uninterp spec fn filler_of(words: u32) -> Seq<char>;

/// `lipsum::lipsum` depends on its argument alone: its generator starts from
/// a fixed seed. What it returns is called [`filler_of`]; it is so many
/// words with one space between each two.
#[verifier::external_body]
fn filler_text(words: u32) -> (text: String)
    ensures
        text@ == filler_of(words),
        word_count(text@) == words,
{
    lipsum::lipsum(words as usize)
}

/// Whether `format` is a `strftime` format of specifiers that `chrono`
/// knows.
pub uninterp spec fn is_known_format(format: Seq<char>) -> bool;

/// `StrftimeItems::new` and then `StrftimeItems::parse`, which depend on
/// the format alone: whether every specifier of the format is one that
/// `chrono` knows. This is called [`is_known_format`].
#[verifier::external_body]
fn knows_format(format: &str) -> (known: bool)
    ensures
        known == is_known_format(format@),
{
    chrono::format::StrftimeItems::new(format).parse().is_ok()
}

/// The segment asks for the time in a format that is not known.
pub open spec fn is_unwritable(segment: SegmentView) -> bool {
    segment matches SegmentView::Now(format) && !is_known_format(format)
}

/// A segment of the template asks for the time in a format that is not
/// known.
pub open spec fn has_unknown_format(template: Seq<SegmentView>) -> bool {
    exists|i: int| 0 <= i < template.len() && is_unwritable(#[trigger] template[i])
}

/// The segment is text or filler text: what stands for it is the same every
/// time.
pub open spec fn is_settled(segment: SegmentView) -> bool {
    segment is Text || segment is Lorem
}

/// What stands for a settled segment: its text, or the filler text of its
/// number of words.
pub open spec fn fixed_piece(segment: SegmentView) -> Seq<char> {
    match segment {
        SegmentView::Text(text) => text,
        SegmentView::Lorem(words) => filler_of(words),
        _ => Seq::empty(),
    }
}

/// Every segment of the template is settled.
pub open spec fn is_fixed(template: Seq<SegmentView>) -> bool {
    forall|i: int| 0 <= i < template.len() ==> is_settled(#[trigger] template[i])
}

/// What stands for the segments of a template whose segments are settled.
pub open spec fn fixed_pieces(template: Seq<SegmentView>) -> Seq<Seq<char>> {
    Seq::new(template.len(), |i: int| fixed_piece(template[i]))
}

/// The body of a template whose segments are settled.
pub open spec fn fixed_body(template: Seq<SegmentView>) -> Seq<char> {
    concat_all(fixed_pieces(template))
}

/// A value for `segment`, or `None` where none can be had. A value that is
/// had fits. One is had for every segment but the time; for a settled
/// segment it is its fixed piece. None is had for the time in a format that
/// is not known.
fn produce(segment: &Segment) -> (piece: Option<String>)
    ensures
        piece matches Some(p) ==> fits(segment@, p@),
        !(segment@ is Now) ==> piece is Some,
        is_unwritable(segment@) ==> piece is None,
        is_settled(segment@) ==> (piece matches Some(p) && p@ == fixed_piece(segment@) && fits(
            segment@,
            p@,
        )),
{
    match segment {
        Segment::Text(text) => Some(text.clone()),
        Segment::Uuid => Some(fresh_uuid()),
        Segment::Lorem(words) => Some(filler_text(*words)),
        Segment::Now(format) => {
            if knows_format(format.as_str()) {
                format_now(format.as_str())
            } else {
                None
            }
        },
    }
}

/// No segment of the template asks for the time.
pub open spec fn is_timeless(template: Seq<SegmentView>) -> bool {
    forall|i: int| 0 <= i < template.len() ==> !((#[trigger] template[i]) is Now)
}

/// The template holds text only.
pub open spec fn is_static(template: Seq<SegmentView>) -> bool {
    forall|i: int| 0 <= i < template.len() ==> (#[trigger] template[i]) is Text
}

/// The texts of the segments of a template that holds text only.
pub open spec fn static_pieces(template: Seq<SegmentView>) -> Seq<Seq<char>> {
    Seq::new(template.len(), |i: int| template[i]->Text_0)
}

/// The body of a template that holds text only: its texts one after the
/// other.
pub open spec fn static_body(template: Seq<SegmentView>) -> Seq<char> {
    concat_all(static_pieces(template))
}

/// A template that holds text only is one whose segments are settled, and
/// its body is its text.
pub proof fn lemma_static_is_fixed(template: Seq<SegmentView>)
    requires
        is_static(template),
    ensures
        is_fixed(template),
        fixed_body(template) == static_body(template),
{
    assert forall|i: int| 0 <= i < template.len() implies is_settled(#[trigger] template[i]) by {
        assert(template[i] is Text);
    }
    assert(fixed_pieces(template) =~= static_pieces(template)) by {
        assert forall|i: int| 0 <= i < template.len() implies fixed_pieces(template)[i]
            == static_pieces(template)[i] by {
            assert(template[i] is Text);
        }
    }
}

/// Renders `template` for one response.
///
/// A body that is given out is made of one piece for each segment, and each
/// piece fits its segment. A template that does not ask for the time is
/// always rendered; one of text and of filler text always to the same body.
/// A template that asks for the time in a format that is not known is never
/// rendered.
pub fn render(template: &Template) -> (res: Result<String, RenderError>)
    ensures
        res matches Ok(body) ==> exists|pieces: Seq<Seq<char>>|
            all_fit(template@, pieces) && body@ == concat_all(pieces),
        is_timeless(template@) ==> res is Ok,
        is_fixed(template@) ==> (res matches Ok(body) && body@ == fixed_body(template@)),
        is_static(template@) ==> (res matches Ok(body) && body@ == static_body(template@)),
        has_unknown_format(template@) ==> res is Err,
        res matches Err(e) ==> e == RenderError::Unavailable && !is_timeless(template@),
{
    let mut pieces: Vec<String> = Vec::new();
    let mut i: usize = 0;
    while i < template.segments.len()
        invariant
            i <= template.segments.len(),
            pieces.len() == i,
            forall|k: int| 0 <= k < i ==> !is_unwritable(#[trigger] template@[k]),
            forall|k: int| 0 <= k < i ==> fits(template@[k], (#[trigger] pieces@[k])@),
            forall|k: int|
                0 <= k < i && is_settled(template@[k]) ==> (#[trigger] pieces@[k])@ == fixed_piece(
                    template@[k],
                ) && fits(template@[k], pieces@[k]@),
            is_fixed(template@) ==> forall|k: int| i <= k < template@.len() ==> is_settled(
                #[trigger] template@[k],
            ),
        decreases template.segments.len() - i,
    {
        assert(template@[i as int] == template.segments@[i as int]@);
        match produce(&template.segments[i]) {
            Some(piece) => {
                pieces.push(piece);
            },
            None => {
                return Err(RenderError::Unavailable);
            },
        }
        i += 1;
    }
    let res = assemble(template, &pieces);
    proof {
        let p = string_views(pieces@);
        lemma_body_fits(template@, p);
        assert(all_fit(template@, p)) by {
            assert forall|k: int| 0 <= k < template@.len() implies fits(
                template@[k],
                #[trigger] p[k],
            ) by {
                assert(fits(template@[k], pieces@[k]@));
            }
        }
        if is_static(template@) {
            lemma_static_is_fixed(template@);
        }
        if is_fixed(template@) {
            assert(p =~= fixed_pieces(template@)) by {
                assert forall|k: int| 0 <= k < template@.len() implies p[k] == fixed_pieces(
                    template@,
                )[k] by {
                    assert(is_settled(template@[k]));
                    assert(pieces@[k]@ == fixed_piece(template@[k]));
                }
            }
        }
    }
    res
}

/// Renders `template` once to see that it can be rendered.
///
/// A template that does not ask for the time can be rendered. One that
/// asks for the time in a format that is not known cannot. Of the others
/// the rendering decides, and the only fault is that the template is not
/// renderable.
pub fn validate(template: &Template) -> (res: Result<(), TemplateError>)
    ensures
        res matches Err(e) ==> e == TemplateError::NotRenderable,
        is_timeless(template@) ==> res is Ok,
        has_unknown_format(template@) ==> res is Err,
{
    match render(template) {
        Ok(_) => Ok(()),
        Err(_) => Err(TemplateError::NotRenderable),
    }
}

/// Parses `text` as a template and renders it once to see that it can be
/// rendered.
pub fn compile(text: &str) -> (res: Result<Template, TemplateError>)
    ensures
        match res {
            Ok(t) => template_of(text@) == Ok::<Seq<SegmentView>, TemplateError>(t@),
            Err(e) => if e == TemplateError::NotRenderable {
                template_of(text@) is Ok
            } else {
                template_of(text@) == Err::<Seq<SegmentView>, TemplateError>(e)
            },
        },
        (template_of(text@) matches Ok(t) && is_timeless(t)) ==> res is Ok,
        (template_of(text@) matches Ok(t) && has_unknown_format(t)) ==> res
            == Err::<Template, TemplateError>(TemplateError::NotRenderable),
{
    let template = match parse_template(text) {
        Ok(template) => template,
        Err(e) => {
            return Err(e);
        },
    };
    match validate(&template) {
        Ok(()) => Ok(template),
        Err(e) => Err(e),
    }
}

} // verus!
