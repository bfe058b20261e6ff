//! The configuration: made once, checked once, read by every request.

use crate::header::{header_of, header_views, parse_header, valid_header_name,
    valid_header_value, Header, HeaderError, HeaderView};
use crate::render::{compile, has_unknown_format, is_timeless};
use crate::style::string_views;
use crate::template::{template_of, SegmentView, Template, TemplateError};
use vstd::prelude::*;

verus! {

/// The address to listen on, as the number that stands for it.
#[derive(Clone, Copy, Debug, PartialEq, Eq, Structural)]
pub enum Interface {
    V4(u32),
    V6(u128),
}

/// Where the certificate and the private key are kept.
#[derive(Clone, Debug, PartialEq, Eq)]
pub struct TlsFiles {
    pub cert: String,
    pub key: String,
}

/// Why a configuration is refused.
#[derive(Clone, Copy, Debug, PartialEq, Eq, Structural)]
pub enum ConfigurationError {
    /// A header is not of the form `key:value`, or its key or value is not
    /// valid.
    InvalidHeader(HeaderError),
    /// Two headers have the same name.
    DuplicateHeader,
    /// The status code is not between 100 and 599.
    InvalidStatusCode,
    /// The interface is no address. The address is parsed by the caller,
    /// who reports it so.
    InvalidInterface,
    /// Of certificate and private key only one is given.
    IncompleteTls,
    /// The body is no template, or cannot be rendered.
    InvalidTemplate(TemplateError),
}

/// The lowest status code.
pub const MIN_STATUS: u16 = 100;

/// The highest status code.
pub const MAX_STATUS: u16 = 599;

/// The configuration of the responder.
#[derive(Debug)]
pub struct Args {
    quiet: bool,
    verbosity: u8,
    port: u16,
    interface: Interface,
    headers: Vec<Header>,
    code: u16,
    body: String,
    template: Template,
    tls: Option<TlsFiles>,
}

/// What an [`Args`] holds.
pub struct ArgsView {
    pub quiet: bool,
    pub verbosity: u8,
    pub port: u16,
    pub interface: Interface,
    pub headers: Seq<HeaderView>,
    pub code: u16,
    pub body: Seq<char>,
    pub template: Seq<SegmentView>,
    pub tls: Option<(Seq<char>, Seq<char>)>,
}

/// No two headers have the same name.
pub open spec fn distinct_names(headers: Seq<HeaderView>) -> bool {
    forall|i: int, j: int|
        0 <= i < j < headers.len() ==> (#[trigger] headers[i]).name != (#[trigger] headers[j]).name
}

/// Every header has a valid name and a valid value.
pub open spec fn all_well_formed(headers: Seq<HeaderView>) -> bool {
    forall|i: int|
        0 <= i < headers.len() ==> valid_header_name((#[trigger] headers[i]).name)
            && valid_header_value(headers[i].value)
}

/// What holds of every configuration: the status code is between 100 and
/// 599, the verbosity at most 2, the headers are valid and differ in their
/// names, and the template is the body parsed.
pub open spec fn valid_config(a: ArgsView) -> bool {
    &&& MIN_STATUS <= a.code <= MAX_STATUS
    &&& a.verbosity <= 2
    &&& all_well_formed(a.headers)
    &&& distinct_names(a.headers)
    &&& template_of(a.body) == Ok::<Seq<SegmentView>, TemplateError>(a.template)
}

/// The level of detail for so many `verbose` flags: 0, 1, and 2 from two on.
pub open spec fn verbosity_of(verbose: u8) -> u8 {
    if verbose >= 2 {
        2
    } else {
        verbose
    }
}

/// The first index from `i` on whose text is no header, or the number of
/// texts.
pub open spec fn first_bad_header(texts: Seq<Seq<char>>, i: int) -> int
    decreases texts.len() - i,
{
    if i < 0 || i >= texts.len() {
        texts.len() as int
    } else if header_of(texts[i]) is Err {
        i
    } else {
        first_bad_header(texts, i + 1)
    }
}

/// The headers that the texts stand for, where each is one.
pub open spec fn headers_of(texts: Seq<Seq<char>>) -> Seq<HeaderView> {
    Seq::new(texts.len(), |i: int| header_of(texts[i])->Ok_0)
}

/// What is wrong with the values of a configuration, if anything; the first
/// of: the status code, the first header that is none, two headers of one
/// name, half of the TLS files, the body as a template.
pub open spec fn fault_of(
    code: u16,
    headers: Seq<Seq<char>>,
    body: Seq<char>,
    has_cert: bool,
    has_key: bool,
) -> Option<ConfigurationError> {
    if !(MIN_STATUS <= code <= MAX_STATUS) {
        Some(ConfigurationError::InvalidStatusCode)
    } else if first_bad_header(headers, 0) < headers.len() {
        Some(
            ConfigurationError::InvalidHeader(
                header_of(headers[first_bad_header(headers, 0)])->Err_0,
            ),
        )
    } else if !distinct_names(headers_of(headers)) {
        Some(ConfigurationError::DuplicateHeader)
    } else if has_cert != has_key {
        Some(ConfigurationError::IncompleteTls)
    } else if template_of(body) is Err {
        Some(ConfigurationError::InvalidTemplate(template_of(body)->Err_0))
    } else {
        None
    }
}

/// The certificate and key as a pair, where both are given.
pub open spec fn tls_of(cert: Option<String>, key: Option<String>) -> Option<
    (Seq<char>, Seq<char>),
> {
    match (cert, key) {
        (Some(c), Some(k)) => Some((c@, k@)),
        _ => None,
    }
}

/// Whether a name among `headers[..upto]` is the name of `headers[upto]`.
fn name_seen(headers: &Vec<Header>, upto: usize) -> (seen: bool)
    requires
        upto < headers.len(),
    ensures
        seen == exists|i: int| 0 <= i < upto && headers@[i].name@ == headers@[upto as int].name@,
{
    let mut i: usize = 0;
    while i < upto
        invariant
            i <= upto,
            upto < headers.len(),
            forall|k: int| 0 <= k < i ==> headers@[k].name@ != headers@[upto as int].name@,
        decreases upto - i,
    {
        if headers[i].name == headers[upto].name {
            return true;
        }
        i += 1;
    }
    false
}

/// Whether no two of `headers` have the same name.
fn names_differ(headers: &Vec<Header>) -> (r: bool)
    ensures
        r == distinct_names(header_views(headers@)),
{
    let ghost views = header_views(headers@);
    let mut j: usize = 0;
    while j < headers.len()
        invariant
            j <= headers.len(),
            views == header_views(headers@),
            forall|a: int, b: int|
                0 <= a < b < j ==> (#[trigger] views[a]).name != (#[trigger] views[b]).name,
        decreases headers.len() - j,
    {
        if name_seen(headers, j) {
            proof {
                let i = choose|i: int|
                    0 <= i < j && headers@[i].name@ == headers@[j as int].name@;
                assert(views[i].name == views[j as int].name);
            }
            return false;
        }
        proof {
            assert forall|a: int, b: int| 0 <= a < b < j + 1 implies (#[trigger] views[a]).name != (
            #[trigger] views[b]).name by {
                if b == j {
                    assert(headers@[a].name@ != headers@[j as int].name@);
                }
            }
        }
        j += 1;
    }
    true
}

impl View for Args {
    type V = ArgsView;

    closed spec fn view(&self) -> ArgsView {
        ArgsView {
            quiet: self.quiet,
            verbosity: self.verbosity,
            port: self.port,
            interface: self.interface,
            headers: header_views(self.headers@),
            code: self.code,
            body: self.body@,
            template: self.template@,
            tls: match self.tls {
                Some(files) => Some((files.cert@, files.key@)),
                None => None,
            },
        }
    }
}

impl Args {
    #[verifier::type_invariant]
    spec fn checked(&self) -> bool {
        valid_config(self@)
    }

    /// A configuration of these values, if they make one.
    ///
    /// The values are checked in the order of [`fault_of`]; then the body is
    /// rendered once, and a body that cannot be rendered is refused as
    /// a template that is not renderable. A body that does not ask for
    /// the time can always be rendered; one that asks for the time in
    /// a format that is not known never can.
    pub fn new(
        quiet: bool,
        verbose: u8,
        port: u16,
        interface: Interface,
        headers: &Vec<String>,
        code: u16,
        body: &str,
        tls_cert: Option<String>,
        tls_key: Option<String>,
    ) -> (res: Result<Args, ConfigurationError>)
        ensures
            match res {
                Ok(args) => {
                    &&& fault_of(
                        code,
                        string_views(headers@),
                        body@,
                        tls_cert is Some,
                        tls_key is Some,
                    ) is None
                    &&& valid_config(args@)
                    &&& args@.quiet == quiet
                    &&& args@.verbosity == verbosity_of(verbose)
                    &&& args@.port == port
                    &&& args@.interface == interface
                    &&& args@.headers == headers_of(string_views(headers@))
                    &&& args@.code == code
                    &&& args@.body == body@
                    &&& args@.tls == tls_of(tls_cert, tls_key)
                },
                Err(e) => {
                    let fault = fault_of(
                        code,
                        string_views(headers@),
                        body@,
                        tls_cert is Some,
                        tls_key is Some,
                    );
                    if e == ConfigurationError::InvalidTemplate(TemplateError::NotRenderable) {
                        fault is None
                    } else {
                        fault == Some(e)
                    }
                },
            },
            (fault_of(code, string_views(headers@), body@, tls_cert is Some, tls_key is Some)
                is None && is_timeless(template_of(body@)->Ok_0)) ==> res is Ok,
            (fault_of(code, string_views(headers@), body@, tls_cert is Some, tls_key is Some)
                is None && has_unknown_format(template_of(body@)->Ok_0)) ==> (res matches Err(e)
                && e == ConfigurationError::InvalidTemplate(TemplateError::NotRenderable)),
    {
        let ghost texts = string_views(headers@);
        if code < MIN_STATUS || code > MAX_STATUS {
            return Err(ConfigurationError::InvalidStatusCode);
        }
        let mut parsed: Vec<Header> = Vec::new();
        let mut i: usize = 0;
        while i < headers.len()
            invariant
                i <= headers.len(),
                MIN_STATUS <= code <= MAX_STATUS,
                texts == string_views(headers@),
                parsed.len() == i,
                first_bad_header(texts, i as int) == first_bad_header(texts, 0),
                forall|k: int|
                    0 <= k < i ==> header_of(texts[k]) == Ok::<HeaderView, HeaderError>(
                        (#[trigger] parsed@[k])@,
                    ),
                forall|k: int| 0 <= k < i ==> (#[trigger] parsed@[k]).well_formed(),
            decreases headers.len() - i,
        {
            assert(texts[i as int] == headers@[i as int]@);
            match parse_header(headers[i].as_str()) {
                Ok(header) => {
                    parsed.push(header);
                },
                Err(e) => {
                    assert(header_of(texts[i as int]) == Err::<HeaderView, HeaderError>(e));
                    assert(first_bad_header(texts, i as int) == i);
                    return Err(ConfigurationError::InvalidHeader(e));
                },
            }
            i += 1;
        }
        proof {
            assert(header_views(parsed@) =~= headers_of(texts));
            assert forall|k: int| 0 <= k < parsed@.len() implies valid_header_name(
                (#[trigger] header_views(parsed@)[k]).name,
            ) && valid_header_value(header_views(parsed@)[k].value) by {
                assert(parsed@[k].well_formed());
            }
        }
        if !names_differ(&parsed) {
            return Err(ConfigurationError::DuplicateHeader);
        }
        let tls = match (tls_cert, tls_key) {
            (Some(cert), Some(key)) => Some(TlsFiles { cert, key }),
            (None, None) => None,
            _ => {
                return Err(ConfigurationError::IncompleteTls);
            },
        };
        let template = match compile(body) {
            Ok(template) => template,
            Err(e) => {
                return Err(ConfigurationError::InvalidTemplate(e));
            },
        };
        let verbosity: u8 = if verbose >= 2 {
            2
        } else {
            verbose
        };
        Ok(
            Args {
                quiet,
                verbosity,
                port,
                interface,
                headers: parsed,
                code,
                body: body.to_string(),
                template,
                tls,
            },
        )
    }

    /// Whether nothing is to be logged.
    pub fn quiet(&self) -> (quiet: bool)
        ensures
            quiet == self@.quiet,
    {
        self.quiet
    }

    /// The level of detail of the log: 0, 1 or 2.
    pub fn verbosity(&self) -> (verbosity: u8)
        ensures
            verbosity == self@.verbosity,
            verbosity <= 2,
    {
        proof {
            use_type_invariant(self);
        }
        self.verbosity
    }

    /// The port to listen on.
    pub fn port(&self) -> (port: u16)
        ensures
            port == self@.port,
    {
        self.port
    }

    /// The address to listen on.
    pub fn interface(&self) -> (interface: Interface)
        ensures
            interface == self@.interface,
    {
        self.interface
    }

    /// The headers to send: valid, and no two of one name.
    pub fn headers(&self) -> (headers: &Vec<Header>)
        ensures
            header_views(headers@) == self@.headers,
            all_well_formed(self@.headers),
            distinct_names(self@.headers),
    {
        proof {
            use_type_invariant(self);
        }
        &self.headers
    }

    /// The status code to send, between 100 and 599.
    pub fn code(&self) -> (code: u16)
        ensures
            code == self@.code,
            MIN_STATUS <= code <= MAX_STATUS,
    {
        proof {
            use_type_invariant(self);
        }
        self.code
    }

    /// The body to send, as it was given.
    pub fn body(&self) -> (body: &str)
        ensures
            body@ == self@.body,
    {
        self.body.as_str()
    }

    /// The body to send, parsed.
    pub fn template(&self) -> (template: &Template)
        ensures
            template@ == self@.template,
            template_of(self@.body) == Ok::<Seq<SegmentView>, TemplateError>(template@),
    {
        proof {
            use_type_invariant(self);
        }
        &self.template
    }

    /// Where certificate and private key are kept, if TLS is asked for.
    pub fn tls(&self) -> (tls: &Option<TlsFiles>)
        ensures
            self@.tls == match *tls {
                Some(files) => Some((files.cert@, files.key@)),
                None => None,
            },
    {
        &self.tls
    }
}

} // verus!
