//! Header fields: the configured ones, given as `key:value`, and what a log
//! shows of any header.

use crate::text::{chars_of, copy_bytes, string_of};
use vstd::prelude::*;
use vstd::utf8::encode_utf8;

verus! {

/// A header field. The name is kept in lower case, the value as the bytes that
/// go on the wire.
#[derive(Clone, Debug, PartialEq, Eq)]
pub struct Header {
    pub name: String,
    pub value: Vec<u8>,
}

/// What a [`Header`] holds.
pub struct HeaderView {
    pub name: Seq<char>,
    pub value: Seq<u8>,
}

impl View for Header {
    type V = HeaderView;

    open spec fn view(&self) -> HeaderView {
        HeaderView { name: self.name@, value: self.value@ }
    }
}

/// The views of a list of headers, in order.
pub open spec fn header_views(headers: Seq<Header>) -> Seq<HeaderView> {
    headers.map_values(|h: Header| h@)
}

/// Why a `key:value` text is no header.
#[derive(Clone, Copy, Debug, PartialEq, Eq, Structural)]
pub enum HeaderError {
    /// The text does not hold exactly one colon.
    WrongFormat,
    /// The part before the colon is no header name.
    InvalidName,
    /// The part after the colon is no header value.
    InvalidValue,
}

/// A character that may stand in a lower-case header name.
pub open spec fn is_name_char(c: char) -> bool {
    ||| 'a' <= c <= 'z'
    ||| '0' <= c <= '9'
    ||| c == '!'
    ||| c == '"'
    ||| c == '#'
    ||| c == '$'
    ||| c == '%'
    ||| c == '&'
    ||| c == '\''
    ||| c == '*'
    ||| c == '+'
    ||| c == '-'
    ||| c == '.'
    ||| c == '^'
    ||| c == '_'
    ||| c == '`'
    ||| c == '|'
    ||| c == '~'
}

/// The longest header name, in characters.
pub const MAX_NAME_LEN: usize = 65535;

/// A lower-case header name: between one and [`MAX_NAME_LEN`] characters,
/// each of them a name character.
pub open spec fn valid_header_name(name: Seq<char>) -> bool {
    &&& 1 <= name.len() <= MAX_NAME_LEN
    &&& forall|i: int| 0 <= i < name.len() ==> is_name_char(#[trigger] name[i])
}

/// A byte that may stand in a header value: a tab, or anything from the space
/// on but the delete character.
pub open spec fn is_value_byte(b: u8) -> bool {
    b == 9 || (b >= 32 && b != 127)
}

/// A header value: every byte is a value byte.
pub open spec fn valid_header_value(value: Seq<u8>) -> bool {
    forall|i: int| 0 <= i < value.len() ==> is_value_byte(#[trigger] value[i])
}

impl Header {
    /// The name is a header name and the value a header value.
    pub open spec fn well_formed(&self) -> bool {
        valid_header_name(self.name@) && valid_header_value(self.value@)
    }

    /// A copy of this header.
    pub fn duplicate(&self) -> (copy: Header)
        ensures
            copy@ == self@,
    {
        Header { name: self.name.clone(), value: copy_bytes(&self.value) }
    }
}

impl HeaderError {
    /// The message shown for this error.
    pub fn message(&self) -> (text: String)
        ensures
            text@ == match *self {
                HeaderError::WrongFormat => "Wrong header format (see --help for format)"@,
                HeaderError::InvalidName => "invalid HTTP header name"@,
                HeaderError::InvalidValue => "failed to parse header value"@,
            },
    {
        match self {
            HeaderError::WrongFormat => "Wrong header format (see --help for format)".to_string(),
            HeaderError::InvalidName => "invalid HTTP header name".to_string(),
            HeaderError::InvalidValue => "failed to parse header value".to_string(),
        }
    }
}

// ---------------------------------------------------------------------------
// What the HTTP types decide
// ---------------------------------------------------------------------------

#[verifier::external_type_specification]
#[verifier::external_body]
pub struct ExInvalidHeaderName(hyper::header::InvalidHeaderName);

#[verifier::external_type_specification]
#[verifier::external_body]
pub struct ExInvalidHeaderValue(hyper::header::InvalidHeaderValue);

/// `text` in lower case, as `str::to_lowercase` gives it.
pub uninterp spec fn lowercase_of(text: Seq<char>) -> Seq<char>;

/// `str::to_lowercase` depends on its argument alone; what it returns is
/// called [`lowercase_of`].
pub assume_specification[ str::to_lowercase ](s: &str) -> (lower: String)
    ensures
        lower@ == lowercase_of(s@),
;

/// `HeaderName::from_lowercase` on the bytes of `lower`. It accepts exactly
/// the inputs of one to 65535 bytes in which every byte is a lower-case
/// letter, a digit or one of ``!"#$%&'*+-.^_`|~``, and the name it returns
/// reads as the input. A character outside ASCII is encoded in bytes above
/// 127, which it refuses.
#[verifier::external_body]
fn name_from_lowercase(lower: &str) -> (res: Result<String, hyper::header::InvalidHeaderName>)
    ensures
        res is Ok <==> valid_header_name(lower@),
        res matches Ok(name) ==> name@ == lower@,
{
    match hyper::header::HeaderName::from_lowercase(lower.as_bytes()) {
        Ok(name) => Ok(name.as_str().to_string()),
        Err(e) => Err(e),
    }
}

/// `HeaderValue::from_str`. It accepts exactly the texts whose bytes are all
/// tabs or at least 32 and not 127, and the value it returns holds the bytes
/// of the text.
#[verifier::external_body]
pub(crate) fn value_from_str(text: &str) -> (res: Result<Vec<u8>, hyper::header::InvalidHeaderValue>)
    ensures
        res is Ok <==> valid_header_value(encode_utf8(text@)),
        res matches Ok(value) ==> value@ == encode_utf8(text@),
{
    match hyper::header::HeaderValue::from_str(text) {
        Ok(value) => Ok(value.as_bytes().to_vec()),
        Err(e) => Err(e),
    }
}

// ---------------------------------------------------------------------------
// Parsing `key:value`
// ---------------------------------------------------------------------------

/// `s` holds a colon at `k` and nowhere else.
pub open spec fn only_colon_at(s: Seq<char>, k: int) -> bool {
    &&& 0 <= k < s.len()
    &&& s[k] == ':'
    &&& forall|j: int| 0 <= j < s.len() && j != k ==> s[j] != ':'
}

/// `s` holds exactly one colon.
pub open spec fn has_single_colon(s: Seq<char>) -> bool {
    exists|k: int| only_colon_at(s, k)
}

/// Where the colon of `s` stands, if it holds exactly one.
pub open spec fn colon_index(s: Seq<char>) -> int {
    choose|k: int| only_colon_at(s, k)
}

/// The header of a key in lower case and the text of a value: the key is
/// the name, and the bytes of the text are the value. The name is looked at
/// before the value.
pub open spec fn header_from(lower: Seq<char>, rest: Seq<char>) -> Result<HeaderView, HeaderError> {
    if !valid_header_name(lower) {
        Err(HeaderError::InvalidName)
    } else if !valid_header_value(encode_utf8(rest)) {
        Err(HeaderError::InvalidValue)
    } else {
        Ok(HeaderView { name: lower, value: encode_utf8(rest) })
    }
}

/// The header that the text `s` stands for. The text is split at its one
/// colon and nothing is trimmed: the part before it, in lower case, is the
/// key, and the part after it the text of the value, of which
/// [`header_from`] makes the header.
pub open spec fn header_of(s: Seq<char>) -> Result<HeaderView, HeaderError> {
    if !has_single_colon(s) {
        Err(HeaderError::WrongFormat)
    } else {
        let k = colon_index(s);
        header_from(lowercase_of(s.take(k)), s.skip(k + 1))
    }
}

/// A header that was parsed is well formed.
pub proof fn lemma_parsed_header_well_formed(s: Seq<char>)
    ensures
        header_of(s) matches Ok(h) ==> valid_header_name(h.name) && valid_header_value(h.value),
{
}

/// Where the only colon of `s` stands, or `None` if it holds none or several.
fn find_single_colon(s: &Vec<char>) -> (res: Option<usize>)
    ensures
        res is Some <==> has_single_colon(s@),
        res matches Some(k) ==> only_colon_at(s@, k as int),
{
    let mut found: Option<usize> = None;
    let mut i: usize = 0;
    while i < s.len()
        invariant
            i <= s.len(),
            found matches Some(k) ==> k < i && s@[k as int] == ':' && forall|j: int|
                0 <= j < i && j != k ==> s@[j] != ':',
            found is None ==> forall|j: int| 0 <= j < i ==> s@[j] != ':',
        decreases s.len() - i,
    {
        if s[i] == ':' {
            match found {
                Some(k) => {
                    assert forall|m: int| !only_colon_at(s@, m) by {
                        if only_colon_at(s@, m) {
                            if m == k as int {
                                assert(s@[i as int] == ':');
                            } else {
                                assert(s@[k as int] == ':');
                            }
                        }
                    }
                    return None;
                },
                None => {
                    found = Some(i);
                },
            }
        }
        i += 1;
    }
    proof {
        match found {
            Some(k) => {
                assert(only_colon_at(s@, k as int));
            },
            None => {
                assert forall|m: int| !only_colon_at(s@, m) by {}
            },
        }
    }
    found
}

/// The characters of `s` from `from` up to `to`, as a string.
fn substring(s: &Vec<char>, from: usize, to: usize) -> (out: String)
    requires
        from <= to <= s.len(),
    ensures
        out@ == s@.subrange(from as int, to as int),
{
    let mut part: Vec<char> = Vec::new();
    let mut i: usize = from;
    while i < to
        invariant
            from <= i <= to,
            to <= s.len(),
            part@ == s@.subrange(from as int, i as int),
        decreases to - i,
    {
        part.push(s[i]);
        i += 1;
    }
    string_of(&part)
}

/// The header of a key in lower case and the text of a value.
///
/// The key must be a header name as it stands, and the bytes of the text
/// a header value. The name is looked at first.
pub fn header_from_parts(lower: &str, rest: &str) -> (res: Result<Header, HeaderError>)
    ensures
        match res {
            Ok(h) => header_from(lower@, rest@) == Ok::<HeaderView, HeaderError>(h@),
            Err(e) => header_from(lower@, rest@) == Err::<HeaderView, HeaderError>(e),
        },
        res matches Ok(h) ==> h.well_formed(),
{
    let name = match name_from_lowercase(lower) {
        Ok(name) => name,
        Err(_) => {
            return Err(HeaderError::InvalidName);
        },
    };
    let value = match value_from_str(rest) {
        Ok(value) => value,
        Err(_) => {
            return Err(HeaderError::InvalidValue);
        },
    };
    Ok(Header { name, value })
}

/// Parses a header given as `key:value`.
///
/// The text must hold exactly one colon. The key is put in lower case and
/// must then be a header name; the value must be a header value. The first
/// of these that fails decides the error.
pub fn parse_header(header: &str) -> (res: Result<Header, HeaderError>)
    ensures
        match res {
            Ok(h) => header_of(header@) == Ok::<HeaderView, HeaderError>(h@),
            Err(e) => header_of(header@) == Err::<HeaderView, HeaderError>(e),
        },
        res matches Ok(h) ==> h.well_formed(),
{
    let chars = chars_of(header);
    let k = match find_single_colon(&chars) {
        Some(k) => k,
        None => {
            return Err(HeaderError::WrongFormat);
        },
    };
    proof {
        let c = colon_index(header@);
        assert(only_colon_at(header@, c));
        assert(c == k as int);
    }
    let key = substring(&chars, 0, k);
    let rest = substring(&chars, k + 1, chars.len());
    assert(key@ == header@.take(k as int));
    assert(rest@ == header@.skip(k + 1));
    let lower = key.as_str().to_lowercase();
    header_from_parts(lower.as_str(), rest.as_str())
}

} // verus!
