use httpc::error::HttpError;
use httpc::url_check::parse_url;

#[test]
fn accepts_absolute_url() {
    let r = parse_url("https://example.com/status/200").unwrap();
    assert_eq!(r, "https://example.com/status/200");
}

#[test]
fn normalizes_missing_path() {
    let r = parse_url("https://example.com").unwrap();
    assert_eq!(r, "https://example.com/");
}

#[test]
fn validated_url_reparses_to_itself() {
    for input in [
        "https://example.com",
        "http://example.com:8080/a/b?x=1&y=2#frag",
        "https://EXAMPLE.com/UPPER",
        "ftp://example.com/file",
    ] {
        let once = parse_url(input).unwrap();
        let twice = parse_url(&once).unwrap();
        assert_eq!(once, twice);
    }
}

#[test]
fn rejects_relative_or_garbage_input() {
    match parse_url("not-a-url") {
        Err(HttpError::InvalidUrl { input, reason }) => {
            assert_eq!(input, "not-a-url");
            assert!(!reason.is_empty());
        }
        _ => panic!("expected InvalidUrl"),
    }
}

#[test]
fn invalid_url_message_names_the_input() {
    let e = parse_url("not-a-url").unwrap_err();
    assert!(e.message().starts_with("invalid URL not-a-url: "));
}
