use dummyhttp::config::{Args, ConfigurationError, Interface, TlsFiles};
use dummyhttp::header::{Header, HeaderError};
use dummyhttp::template::{Segment, TemplateError};

fn config_headers(headers: &[&str]) -> Vec<String> {
    headers.iter().map(|h| h.to_string()).collect()
}

fn config_of(headers: &[&str], code: u16, body: &str) -> Result<Args, ConfigurationError> {
    Args::new(false, 0, 8080, Interface::V4(0), &config_headers(headers), code, body, None, None)
}

fn config_fault(headers: &[&str], code: u16, body: &str) -> Option<ConfigurationError> {
    config_of(headers, code, body).err()
}

#[test]
fn configuration_keeps_its_values() {
    let args = Args::new(
        true,
        1,
        8443,
        Interface::V6(1),
        &config_headers(&["X-A:1", "content-type:text/plain"]),
        418,
        "Hello {{ uuid() }}",
        Some("cert.pem".to_string()),
        Some("key.pem".to_string()),
    )
    .unwrap();
    assert!(args.quiet());
    assert_eq!(args.verbosity(), 1);
    assert_eq!(args.port(), 8443);
    assert_eq!(args.interface(), Interface::V6(1));
    assert_eq!(
        args.headers(),
        &vec![
            Header { name: "x-a".to_string(), value: b"1".to_vec() },
            Header { name: "content-type".to_string(), value: b"text/plain".to_vec() },
        ]
    );
    assert_eq!(args.code(), 418);
    assert_eq!(args.body(), "Hello {{ uuid() }}");
    assert_eq!(args.template().segments, vec![Segment::Text("Hello ".to_string()), Segment::Uuid]);
    assert_eq!(
        args.tls(),
        &Some(TlsFiles { cert: "cert.pem".to_string(), key: "key.pem".to_string() })
    );
}

#[test]
fn configuration_by_default() {
    let args = config_of(&[], 200, "dummyhttp").unwrap();
    assert!(!args.quiet());
    assert_eq!(args.verbosity(), 0);
    assert_eq!(args.port(), 8080);
    assert_eq!(args.interface(), Interface::V4(0));
    assert_eq!(args.headers(), &Vec::new());
    assert_eq!(args.code(), 200);
    assert_eq!(args.body(), "dummyhttp");
    assert_eq!(args.tls(), &None);
}

#[test]
fn verbosity_ends_at_2() {
    for (verbose, verbosity) in [(0u8, 0u8), (1, 1), (2, 2), (3, 2), (255, 2)] {
        let args =
            Args::new(false, verbose, 8080, Interface::V4(0), &Vec::new(), 200, "", None, None).unwrap();
        assert_eq!(args.verbosity(), verbosity);
    }
}

#[test]
fn status_code_has_its_range() {
    assert!(config_of(&[], 100, "").is_ok());
    assert!(config_of(&[], 299, "").is_ok());
    assert!(config_of(&[], 599, "").is_ok());
    assert_eq!(config_fault(&[], 99, ""), Some(ConfigurationError::InvalidStatusCode));
    assert_eq!(config_fault(&[], 600, ""), Some(ConfigurationError::InvalidStatusCode));
    assert_eq!(config_fault(&[], 0, ""), Some(ConfigurationError::InvalidStatusCode));
    assert_eq!(config_fault(&[], 65535, ""), Some(ConfigurationError::InvalidStatusCode));
}

#[test]
fn malformed_header_is_rejected() {
    assert_eq!(
        config_fault(&["X-A"], 200, ""),
        Some(ConfigurationError::InvalidHeader(HeaderError::WrongFormat))
    );
    assert_eq!(
        config_fault(&["x-a:1", "x b:2"], 200, ""),
        Some(ConfigurationError::InvalidHeader(HeaderError::InvalidName))
    );
    assert_eq!(
        config_fault(&["x-a:1\n"], 200, ""),
        Some(ConfigurationError::InvalidHeader(HeaderError::InvalidValue))
    );
}

#[test]
fn first_malformed_header_decides() {
    assert_eq!(
        config_fault(&["x-a:1", "x b:2", "x-c"], 200, ""),
        Some(ConfigurationError::InvalidHeader(HeaderError::InvalidName))
    );
}

#[test]
fn headers_of_one_name_are_rejected() {
    assert_eq!(config_fault(&["x-a:1", "x-a:2"], 200, ""), Some(ConfigurationError::DuplicateHeader));
    assert_eq!(config_fault(&["x-a:1", "x-b:1", "X-A:2"], 200, ""), Some(ConfigurationError::DuplicateHeader));
    assert!(config_of(&["x-a:1", "x-b:1", "x-a-b:1"], 200, "").is_ok());
}

#[test]
fn half_of_the_tls_files_is_rejected() {
    let cert = Args::new(false, 0, 8080, Interface::V4(0), &Vec::new(), 200, "", Some("c".to_string()), None);
    assert_eq!(cert.err(), Some(ConfigurationError::IncompleteTls));
    let key = Args::new(false, 0, 8080, Interface::V4(0), &Vec::new(), 200, "", None, Some("k".to_string()));
    assert_eq!(key.err(), Some(ConfigurationError::IncompleteTls));
}

#[test]
fn body_that_is_no_template_is_rejected() {
    assert_eq!(
        config_fault(&[], 200, "{{ foo() }}"),
        Some(ConfigurationError::InvalidTemplate(TemplateError::UnknownFunction))
    );
    assert_eq!(
        config_fault(&[], 200, "{{ uuid()"),
        Some(ConfigurationError::InvalidTemplate(TemplateError::Unclosed))
    );
    assert_eq!(
        config_fault(&[], 200, "{{ lorem(words=4294967296) }}"),
        Some(ConfigurationError::InvalidTemplate(TemplateError::TooManyWords))
    );
}

#[test]
fn body_that_cannot_be_rendered_is_rejected() {
    assert_eq!(
        config_fault(&[], 200, "{{ now() | date(format=\"%Q\") }}"),
        Some(ConfigurationError::InvalidTemplate(TemplateError::NotRenderable))
    );
    assert!(config_of(&[], 200, "a {{ lorem(words=100001) }} b {{ lorem(words=0) }}").is_ok());
}

#[test]
fn faults_are_found_in_their_order() {
    assert_eq!(config_fault(&["x"], 99, "{{"), Some(ConfigurationError::InvalidStatusCode));
    assert_eq!(
        config_fault(&["x-a:1", "x-a:2", "x"], 200, "{{"),
        Some(ConfigurationError::InvalidHeader(HeaderError::WrongFormat))
    );
    assert_eq!(config_fault(&["x-a:1", "x-a:2"], 200, "{{"), Some(ConfigurationError::DuplicateHeader));
    let half = Args::new(false, 0, 8080, Interface::V4(0), &Vec::new(), 200, "{{", Some("c".to_string()), None);
    assert_eq!(half.err(), Some(ConfigurationError::IncompleteTls));
}
