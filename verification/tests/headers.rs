use dummyhttp::header::{header_from_parts, parse_header, Header, HeaderError};

#[test]
fn header_is_split_at_its_colon() {
    let header = parse_header("X-A:1").unwrap();
    assert_eq!(header.name, "x-a");
    assert_eq!(header.value, b"1".to_vec());
}

#[test]
fn header_name_is_put_in_lower_case() {
    let header = parse_header("Content-Type:text/plain").unwrap();
    assert_eq!(header, Header { name: "content-type".to_string(), value: b"text/plain".to_vec() });
}

#[test]
fn header_value_is_not_trimmed() {
    let header = parse_header("x-a: 1 ").unwrap();
    assert_eq!(header.value, b" 1 ".to_vec());
}

#[test]
fn header_value_may_be_empty() {
    let header = parse_header("x-a:").unwrap();
    assert_eq!(header.name, "x-a");
    assert_eq!(header.value, Vec::<u8>::new());
}

#[test]
fn header_value_keeps_the_bytes_of_its_text() {
    let header = parse_header("x-a:é").unwrap();
    assert_eq!(header.value, vec![0xc3, 0xa9]);
}

#[test]
fn header_without_colon_is_refused() {
    assert_eq!(parse_header("X-A").err(), Some(HeaderError::WrongFormat));
}

#[test]
fn header_with_two_colons_is_refused() {
    assert_eq!(parse_header("location:http://example.org").err(), Some(HeaderError::WrongFormat));
}

#[test]
fn empty_header_is_refused() {
    assert_eq!(parse_header("").err(), Some(HeaderError::WrongFormat));
}

#[test]
fn header_with_empty_name_is_refused() {
    assert_eq!(parse_header(":1").err(), Some(HeaderError::InvalidName));
}

#[test]
fn header_with_space_in_name_is_refused() {
    assert_eq!(parse_header("x a:1").err(), Some(HeaderError::InvalidName));
}

#[test]
fn header_with_name_outside_ascii_is_refused() {
    assert_eq!(parse_header("é:1").err(), Some(HeaderError::InvalidName));
}

#[test]
fn header_with_control_character_in_value_is_refused() {
    assert_eq!(parse_header("x-a:a\nb").err(), Some(HeaderError::InvalidValue));
    assert_eq!(parse_header("x-a:a\u{7f}b").err(), Some(HeaderError::InvalidValue));
}

#[test]
fn header_value_may_hold_a_tab() {
    assert_eq!(parse_header("x-a:a\tb").unwrap().value, b"a\tb".to_vec());
}

#[test]
fn name_is_looked_at_before_value() {
    assert_eq!(parse_header("x a:a\nb").err(), Some(HeaderError::InvalidName));
}

#[test]
fn header_name_of_the_greatest_length_is_taken() {
    let name = "a".repeat(65535);
    let header = parse_header(&format!("{}:1", name)).unwrap();
    assert_eq!(header.name.len(), 65535);
    let long = "a".repeat(65536);
    assert_eq!(parse_header(&format!("{}:1", long)).err(), Some(HeaderError::InvalidName));
}

#[test]
fn header_errors_have_their_messages() {
    assert_eq!(HeaderError::WrongFormat.message(), "Wrong header format (see --help for format)");
    assert_eq!(HeaderError::InvalidName.message(), "invalid HTTP header name");
    assert_eq!(HeaderError::InvalidValue.message(), "failed to parse header value");
}

#[test]
fn duplicate_of_a_header_is_equal_to_it() {
    let header = Header { name: "x-a".to_string(), value: vec![1, 2, 3] };
    assert_eq!(header.duplicate(), header);
}

#[test]
fn name_characters_are_the_token_characters() {
    let marks = "!\"#$%&'*+-.^_`|~";
    for code in 0u8..128 {
        let c = code as char;
        let result = parse_header(&format!("{}:1", c));
        if c == ':' {
            assert_eq!(result.err(), Some(HeaderError::WrongFormat));
        } else if c.is_ascii_alphanumeric() || marks.contains(c) {
            let header = result.unwrap();
            assert_eq!(header.name, c.to_ascii_lowercase().to_string());
        } else {
            assert_eq!(result.err(), Some(HeaderError::InvalidName));
        }
    }
}

#[test]
fn value_bytes_are_all_but_control_characters() {
    for code in 0u8..128 {
        let c = code as char;
        let result = parse_header(&format!("x-a:{}", c));
        if c == ':' {
            assert_eq!(result.err(), Some(HeaderError::WrongFormat));
        } else if code == 9 || (code >= 32 && code != 127) {
            assert_eq!(result.unwrap().value, vec![code]);
        } else {
            assert_eq!(result.err(), Some(HeaderError::InvalidValue));
        }
    }
}

#[test]
fn header_is_made_of_its_parts() {
    assert_eq!(
        header_from_parts("x-a", "1"),
        Ok(Header { name: "x-a".to_string(), value: b"1".to_vec() })
    );
    assert_eq!(
        header_from_parts("content-type", " text/plain; charset=utf-8 "),
        Ok(Header {
            name: "content-type".to_string(),
            value: b" text/plain; charset=utf-8 ".to_vec(),
        })
    );
    assert_eq!(
        header_from_parts("x-a", "\u{e9}\t"),
        Ok(Header { name: "x-a".to_string(), value: vec![0xc3, 0xa9, 9] })
    );
    assert_eq!(header_from_parts("x-a", ""), Ok(Header { name: "x-a".to_string(), value: vec![] }));
}

#[test]
fn key_must_be_a_name_as_it_stands() {
    assert_eq!(header_from_parts("X-A", "1"), Err(HeaderError::InvalidName));
    assert_eq!(header_from_parts("", "1"), Err(HeaderError::InvalidName));
    assert_eq!(header_from_parts("x a", "1"), Err(HeaderError::InvalidName));
    assert_eq!(header_from_parts("x:a", "1"), Err(HeaderError::InvalidName));
    assert_eq!(header_from_parts("x-\u{e9}", "1"), Err(HeaderError::InvalidName));
    assert_eq!(header_from_parts(&"a".repeat(65535), "1").map(|h| h.name.len()), Ok(65535));
    assert_eq!(header_from_parts(&"a".repeat(65536), "1"), Err(HeaderError::InvalidName));
}

#[test]
fn name_is_looked_at_before_the_value() {
    assert_eq!(header_from_parts("x-a", "a\nb"), Err(HeaderError::InvalidValue));
    assert_eq!(header_from_parts("x-a", "\u{7f}"), Err(HeaderError::InvalidValue));
    assert_eq!(header_from_parts("x-a", "\u{0}"), Err(HeaderError::InvalidValue));
    assert_eq!(header_from_parts("X-A", "a\nb"), Err(HeaderError::InvalidName));
}
