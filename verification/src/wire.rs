//! The headers of a response in the header map that the server sends them
//! from.

use crate::config::{all_well_formed, distinct_names, ArgsView};
use crate::header::{header_views, valid_header_name, valid_header_value, Header, HeaderView};
use crate::render::RenderError;
use crate::response::{date_name, lemma_response_is_dated, lemma_response_is_well_formed,
    lemma_response_keeps_configuration, response_of};
use hyper::header::{HeaderName, HeaderValue};
use hyper::HeaderMap;
use vstd::prelude::*;

verus! {

/// `http::HeaderMap`, under the name that `hyper` gives it.
#[verifier::external_type_specification]
#[verifier::external_body]
#[verifier::reject_recursive_types(T)]
pub struct ExHeaderMap<T>(HeaderMap<T>);

/// `http::HeaderValue`, under the name that `hyper` gives it.
#[verifier::external_type_specification]
#[verifier::external_body]
pub struct ExHeaderValue(HeaderValue);

/// What a header map holds: under each name that it has, the bytes of the
/// value that `HeaderMap::get` gives for the name.
pub uninterp spec fn held_by(map: HeaderMap<HeaderValue>) -> Map<Seq<char>, Seq<u8>>;

/// A header map that holds fewer names than this takes one more. The map
/// refuses an entry only where it holds 32768 names or its table of 32768
/// places would have to grow, and a table grows from a fifth full at the
/// earliest.
pub const SURE_ROOM: usize = 4096;

/// No name and no value.
pub open spec fn nothing_held() -> Map<Seq<char>, Seq<u8>> {
    Map::empty()
}

/// `HeaderMap::new`: a map that holds nothing.
#[verifier::external_body]
fn empty_map() -> (fresh: HeaderMap<HeaderValue>)
    ensures
        held_by(fresh) == nothing_held(),
{
    HeaderMap::new()
}

/// `HeaderMap::try_insert`, with the name made by `HeaderName::from_lowercase`
/// and the value by `HeaderValue::from_bytes`. Where it is done, the name is
/// a header name and the value a header value, and the map holds the value
/// under the name, in place of what it held under that name before, and
/// everything else as before. Where the name or the value is refused, or
/// the map takes no more, the map holds what it held. A header name and a
/// header value are taken by every map that holds fewer than [`SURE_ROOM`]
/// names.
#[verifier::external_body]
fn hold(held: &mut HeaderMap<HeaderValue>, name: &str, value: &Vec<u8>) -> (done: bool)
    ensures
        done ==> valid_header_name(name@) && valid_header_value(value@),
        done ==> held_by(*final(held)) == held_by(*old(held)).insert(name@, value@),
        !done ==> held_by(*final(held)) == held_by(*old(held)),
        (valid_header_name(name@) && valid_header_value(value@) && held_by(
            *old(held),
        ).dom().finite() && held_by(*old(held)).dom().len() < SURE_ROOM) ==> done,
{
    match (HeaderName::from_lowercase(name.as_bytes()), HeaderValue::from_bytes(value)) {
        (Ok(name), Ok(value)) => held.try_insert(name, value).is_ok(),
        _ => false,
    }
}

/// What a map holds once the headers are put into it one after the other:
/// each name with the value of the last header of that name.
pub open spec fn map_of(headers: Seq<HeaderView>) -> Map<Seq<char>, Seq<u8>>
    decreases headers.len(),
{
    if headers.len() == 0 {
        nothing_held()
    } else {
        map_of(headers.drop_last()).insert(headers.last().name, headers.last().value)
    }
}

/// The map of headers holds a name exactly where one of the headers has it.
pub proof fn lemma_map_holds_the_names(headers: Seq<HeaderView>, name: Seq<char>)
    ensures
        map_of(headers).contains_key(name) <==> exists|i: int|
            0 <= i < headers.len() && (#[trigger] headers[i]).name == name,
    decreases headers.len(),
{
    if headers.len() > 0 {
        let before = headers.drop_last();
        lemma_map_holds_the_names(before, name);
        if map_of(headers).contains_key(name) {
            if headers.last().name == name {
                assert(headers[headers.len() - 1].name == name);
            } else {
                let i = choose|i: int| 0 <= i < before.len() && (#[trigger] before[i]).name == name;
                assert(headers[i].name == name);
            }
        }
        if exists|i: int| 0 <= i < headers.len() && (#[trigger] headers[i]).name == name {
            let i = choose|i: int| 0 <= i < headers.len() && (#[trigger] headers[i]).name == name;
            if i < before.len() {
                assert(before[i].name == name);
            }
        }
    }
}

/// Where the headers differ in their names, the map of them holds each
/// header's value under its name.
pub proof fn lemma_map_holds_each_header(headers: Seq<HeaderView>, i: int)
    requires
        distinct_names(headers),
        0 <= i < headers.len(),
    ensures
        map_of(headers).contains_key(headers[i].name),
        map_of(headers)[headers[i].name] == headers[i].value,
    decreases headers.len(),
{
    let before = headers.drop_last();
    if i < before.len() {
        assert forall|a: int, b: int| 0 <= a < b < before.len() implies (#[trigger] before[a]).name
            != (#[trigger] before[b]).name by {
            assert(headers[a].name != headers[b].name);
        }
        lemma_map_holds_each_header(before, i);
        assert(before[i] == headers[i]);
        assert(headers[i].name != headers[headers.len() - 1].name);
    }
}

/// The map of the headers of a response that was given a date holds that
/// date under the name of the date header, and so exactly one date,
/// whatever was configured and whether or not the body was rendered.
pub proof fn lemma_map_holds_the_date(
    args: ArgsView,
    rendered: Result<Seq<char>, RenderError>,
    date: Seq<u8>,
)
    requires
        all_well_formed(args.headers),
        distinct_names(args.headers),
        valid_header_value(date),
    ensures
        map_of(response_of(args, rendered, Some(date)).headers).contains_key(date_name()),
        map_of(response_of(args, rendered, Some(date)).headers)[date_name()] == date,
{
    let headers = response_of(args, rendered, Some(date)).headers;
    lemma_response_is_well_formed(args, rendered, Some(date));
    lemma_response_is_dated(args, rendered, date);
    let k = choose|k: int| 0 <= k < headers.len() && (#[trigger] headers[k]).name == date_name();
    lemma_map_holds_each_header(headers, k);
}

/// The map of the headers of a response to a rendered body holds every
/// configured header that is no date header with its value.
pub proof fn lemma_map_of_a_response(args: ArgsView, body: Seq<char>, date: Option<Seq<u8>>)
    requires
        all_well_formed(args.headers),
        distinct_names(args.headers),
        date matches Some(value) ==> valid_header_value(value),
    ensures
        forall|i: int|
            0 <= i < args.headers.len() && (#[trigger] args.headers[i]).name != date_name()
                ==> map_of(response_of(args, Ok(body), date).headers).contains_key(
                args.headers[i].name,
            ) && map_of(response_of(args, Ok(body), date).headers)[args.headers[i].name]
                == args.headers[i].value,
{
    let headers = response_of(args, Ok(body), date).headers;
    lemma_response_is_well_formed(args, Ok(body), date);
    lemma_response_keeps_configuration(args, body, date);
    assert forall|i: int|
        0 <= i < args.headers.len() && (#[trigger] args.headers[i]).name
            != date_name() implies map_of(headers).contains_key(args.headers[i].name) && map_of(
        headers,
    )[args.headers[i].name] == args.headers[i].value by {
        assert(headers[i] == args.headers[i]);
        lemma_map_holds_each_header(headers, i);
    }
}

/// The headers in a header map, or `None` where the map refused one of
/// them, as it does where a name is no header name or a value no header
/// value. The map holds each name with the value of the last header of that
/// name. Up to [`SURE_ROOM`] headers with valid names and values are never
/// refused.
pub fn header_map(headers: &Vec<Header>) -> (sent: Option<HeaderMap<HeaderValue>>)
    ensures
        sent matches Some(held) ==> held_by(held) == map_of(header_views(headers@)),
        sent is Some ==> all_well_formed(header_views(headers@)),
        (all_well_formed(header_views(headers@)) && headers@.len() <= SURE_ROOM) ==> sent is Some,
{
    let mut held = empty_map();
    let mut i: usize = 0;
    while i < headers.len()
        invariant
            i <= headers.len(),
            held_by(held) == map_of(header_views(headers@).take(i as int)),
            held_by(held).dom().finite(),
            held_by(held).dom().len() <= i,
            forall|k: int| 0 <= k < i ==> (#[trigger] headers@[k]).well_formed(),
        decreases headers.len() - i,
    {
        let ghost before = held_by(held);
        let done = hold(&mut held, headers[i].name.as_str(), &headers[i].value);
        if !done {
            proof {
                if headers@.len() <= SURE_ROOM {
                    let view = header_views(headers@)[i as int];
                    assert(view == headers@[i as int]@);
                    assert(!(valid_header_name(view.name) && valid_header_value(view.value)));
                }
            }
            return None;
        }
        proof {
            assert(held_by(held).dom() =~= before.dom().insert(headers@[i as int].name@));
            let views = header_views(headers@);
            assert(views.take(i + 1).drop_last() == views.take(i as int));
            assert(views.take(i + 1).last() == headers@[i as int]@);
        }
        i += 1;
    }
    assert(header_views(headers@).take(headers.len() as int) == header_views(headers@));
    assert forall|k: int| 0 <= k < headers@.len() implies valid_header_name(
        (#[trigger] header_views(headers@)[k]).name,
    ) && valid_header_value(header_views(headers@)[k].value) by {
        assert(headers@[k].well_formed());
    }
    Some(held)
}

} // verus!
