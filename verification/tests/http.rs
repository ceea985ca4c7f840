use poem::http::{header_name, header_value, method};

#[test]
fn header_names_are_lowered() {
    assert_eq!(header_name("X-Token"), Some(b"x-token".to_vec()));
    assert_eq!(header_name("content-type"), Some(b"content-type".to_vec()));
    assert_eq!(header_name("ACCEPT"), Some(b"accept".to_vec()));
    assert_eq!(header_name("a!#$%&'*+-.^_`|~9Z"), Some(b"a!#$%&'*+-.^_`|~9z".to_vec()));
}

#[test]
fn header_names_have_their_alphabet() {
    for b in 0u8..=127 {
        let text = String::from(b as char);
        let accepted = matches!(b, b'!'..=b'\'' | b'*' | b'+' | b'-' | b'.' | b'0'..=b'9'
            | b'A'..=b'Z' | b'^'..=b'z' | b'|' | b'~');
        let expected = if accepted { Some(vec![b.to_ascii_lowercase()]) } else { None };
        assert_eq!(header_name(&text), expected, "byte {}", b);
    }
    assert_eq!(header_name(""), None);
    assert_eq!(header_name("x token"), None);
    assert_eq!(header_name("x:token"), None);
    assert_eq!(header_name("h\u{e9}"), None);
}

#[test]
fn header_names_have_a_longest_length() {
    let longest = "a".repeat(65535);
    assert_eq!(header_name(&longest), Some(longest.clone().into_bytes()));
    let too_long = "a".repeat(65536);
    assert_eq!(header_name(&too_long), None);
    let mixed = "Ab".repeat(100);
    assert_eq!(header_name(&mixed), Some("ab".repeat(100).into_bytes()));
}

#[test]
fn header_values_keep_their_bytes() {
    assert_eq!(header_value("https://example.com"), Some(b"https://example.com".to_vec()));
    assert_eq!(header_value(""), Some(Vec::new()));
    assert_eq!(header_value("a\tb c"), Some(b"a\tb c".to_vec()));
    assert_eq!(header_value("caf\u{e9}"), Some("caf\u{e9}".as_bytes().to_vec()));
}

#[test]
fn header_values_have_their_alphabet() {
    for b in 0u8..=127 {
        let text = String::from(b as char);
        let accepted = (b >= 32 && b != 127) || b == b'\t';
        let expected = if accepted { Some(vec![b]) } else { None };
        assert_eq!(header_value(&text), expected, "byte {}", b);
    }
    assert_eq!(header_value("a\nb"), None);
}

#[test]
fn methods_keep_their_case() {
    assert_eq!(method("GET"), Some(b"GET".to_vec()));
    assert_eq!(method("get"), Some(b"get".to_vec()));
    assert_eq!(method("wOw!!"), Some(b"wOw!!".to_vec()));
    let long = "This_is_a_very_long_method.It_is_valid_but_unlikely.";
    assert_eq!(method(long), Some(long.as_bytes().to_vec()));
}

#[test]
fn methods_have_their_alphabet() {
    for b in 0u8..=127 {
        let text = String::from(b as char);
        let accepted = matches!(b, b'!' | b'*' | b'+' | b'-' | b'.' | b'0'..=b'9' | b'A'..=b'Z'
            | b'^'..=b'z' | b'|' | b'~');
        let expected = if accepted { Some(vec![b]) } else { None };
        assert_eq!(method(&text), expected, "byte {}", b);
    }
    assert_eq!(method(""), None);
    assert_eq!(method("GET "), None);
    assert_eq!(method("G\u{e9}T"), None);
}
