use httpc::error::HttpError;
use httpc::kv::KvPair;

#[test]
fn parses_simple_pair() {
    let p = KvPair::from_str("a=1").unwrap();
    assert_eq!(p.key, "a");
    assert_eq!(p.value, "1");
}

#[test]
fn splits_at_first_equals_only() {
    let p = KvPair::from_str("a=b=c").unwrap();
    assert_eq!(p.key, "a");
    assert_eq!(p.value, "b=c");
}

#[test]
fn value_may_be_empty() {
    let p = KvPair::from_str("key=").unwrap();
    assert_eq!(p.key, "key");
    assert_eq!(p.value, "");
}

#[test]
fn key_may_be_empty() {
    let p = KvPair::from_str("=v").unwrap();
    assert_eq!(p.key, "");
    assert_eq!(p.value, "v");
}

#[test]
fn token_without_equals_is_rejected() {
    match KvPair::from_str("malformed") {
        Err(HttpError::MalformedKeyValuePair { token }) => {
            assert_eq!(token, "malformed");
        }
        _ => panic!("expected MalformedKeyValuePair"),
    }
}

#[test]
fn empty_token_is_rejected() {
    assert!(matches!(
        KvPair::from_str(""),
        Err(HttpError::MalformedKeyValuePair { .. })
    ));
}

#[test]
fn malformed_pair_message_names_the_token() {
    let e = KvPair::from_str("oops").unwrap_err();
    assert_eq!(e.message(), "malformed key=value pair: oops");
}
