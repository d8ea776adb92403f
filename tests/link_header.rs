use gistlist::error::Error;
use gistlist::link::parse_link_header;

fn next_of(value: &[u8]) -> Option<String> {
    match parse_link_header(value) {
        Ok(next) => next,
        Err(e) => panic!("unexpected error: {:?}", e),
    }
}

#[test]
fn single_next_entry_gives_its_url() {
    let value = b"<https://api.example.com/x?page=2>; rel=\"next\"";
    assert_eq!(next_of(value), Some("https://api.example.com/x?page=2".to_string()));
}

#[test]
fn empty_value_has_no_next() {
    assert_eq!(next_of(b""), None);
}

#[test]
fn prev_only_has_no_next() {
    assert_eq!(next_of(b"<https://api.example.com/x?page=1>; rel=\"prev\""), None);
}

#[test]
fn malformed_text_has_no_next() {
    assert_eq!(next_of(b"this is not a link field"), None);
    assert_eq!(next_of(b"<>; rel=\"next\""), None);
    assert_eq!(next_of(b"<https://a.example/2> rel=\"next\""), None);
    assert_eq!(next_of(b"https://a.example/2; rel=\"next\""), None);
}

#[test]
fn relation_is_case_sensitive() {
    assert_eq!(next_of(b"<https://a.example/2>; rel=\"NEXT\""), None);
    assert_eq!(next_of(b"<https://a.example/2>; REL=\"next\""), None);
}

#[test]
fn relation_must_be_exactly_next() {
    assert_eq!(next_of(b"<https://a.example/2>; rel=\"nextpage\""), None);
}

#[test]
fn next_after_other_entries_is_found() {
    let value = b"<https://a.example/1>; rel=\"prev\", <https://a.example/3>; rel=\"next\", <https://a.example/9>; rel=\"last\"";
    assert_eq!(next_of(value), Some("https://a.example/3".to_string()));
}

#[test]
fn next_as_last_entry_is_found() {
    let value = b"<https://a.example/1>; rel=\"first\", <https://a.example/9>; rel=\"last\", <https://a.example/4>; rel=\"next\"";
    assert_eq!(next_of(value), Some("https://a.example/4".to_string()));
}

#[test]
fn first_next_entry_wins() {
    let value = b"<https://a.example/2>; rel=\"next\", <https://a.example/5>; rel=\"next\"";
    assert_eq!(next_of(value), Some("https://a.example/2".to_string()));
}

#[test]
fn stray_angle_bracket_before_entry() {
    let value = b"<<https://a.example/2>; rel=\"next\"";
    assert_eq!(next_of(value), Some("<https://a.example/2".to_string()));
}

#[test]
fn listing_header_shape() {
    let value = b"<https://api.github.com/gists?per_page=100&page=2>; rel=\"next\", <https://api.github.com/gists?per_page=100&page=7>; rel=\"last\"";
    assert_eq!(
        next_of(value),
        Some("https://api.github.com/gists?per_page=100&page=2".to_string())
    );
}

#[test]
fn tab_is_text() {
    assert_eq!(next_of(b"\t<https://a.example/2>; rel=\"next\""), Some("https://a.example/2".to_string()));
}

#[test]
fn non_text_value_is_invalid() {
    let value: &[u8] = b"<https://a.example/2>; rel=\"next\"\xff";
    match parse_link_header(value) {
        Err(Error::InvalidLink(Some(raw))) => assert_eq!(raw, value.to_vec()),
        other => panic!("expected an invalid link field, got {:?}", other),
    }
}

#[test]
fn control_byte_is_invalid_even_without_next() {
    let value: &[u8] = b"<https://a.example/1>; rel=\"prev\"\n";
    match parse_link_header(value) {
        Err(Error::InvalidLink(Some(raw))) => assert_eq!(raw, value.to_vec()),
        other => panic!("expected an invalid link field, got {:?}", other),
    }
}

#[test]
fn parsing_twice_agrees() {
    let values: Vec<&[u8]> = vec![
        b"<https://a.example/1>; rel=\"prev\", <https://a.example/3>; rel=\"next\"",
        b"",
        b"<https://a.example/1>; rel=\"prev\"",
        b"\x80\x81",
    ];
    for value in values {
        let first = format!("{:?}", parse_link_header(value));
        let second = format!("{:?}", parse_link_header(value));
        assert_eq!(first, second);
    }
}
