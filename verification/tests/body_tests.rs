use httpc::body::build_body;
use httpc::json::encode_json_object;
use httpc::kv::KvPair;

fn pair(k: &str, v: &str) -> KvPair {
    KvPair {
        key: k.to_string(),
        value: v.to_string(),
    }
}

#[test]
fn distinct_keys_pass_through_unchanged() {
    let input = vec![pair("a", "1"), pair("b", "2"), pair("c", "3")];
    let out = build_body(&input);
    assert_eq!(out.len(), 3);
    assert_eq!((out[0].key.as_str(), out[0].value.as_str()), ("a", "1"));
    assert_eq!((out[1].key.as_str(), out[1].value.as_str()), ("b", "2"));
    assert_eq!((out[2].key.as_str(), out[2].value.as_str()), ("c", "3"));
}

#[test]
fn duplicate_keys_keep_last_value_at_first_position() {
    let input = vec![pair("a", "1"), pair("b", "2"), pair("a", "3")];
    let out = build_body(&input);
    assert_eq!(out.len(), 2);
    assert_eq!((out[0].key.as_str(), out[0].value.as_str()), ("a", "3"));
    assert_eq!((out[1].key.as_str(), out[1].value.as_str()), ("b", "2"));
}

#[test]
fn empty_body_stays_empty() {
    let out = build_body(&Vec::new());
    assert_eq!(out.len(), 0);
}

#[test]
fn encodes_pairs_as_json_object() {
    let pairs = vec![pair("a", "1"), pair("b", "2")];
    assert_eq!(encode_json_object(&pairs), "{\"a\":\"1\",\"b\":\"2\"}");
}

#[test]
fn encodes_empty_object() {
    let pairs: Vec<KvPair> = Vec::new();
    assert_eq!(encode_json_object(&pairs), "{}");
}

#[test]
fn escapes_quotes_backslashes_and_controls() {
    let pairs = vec![pair("q\"k", "a\\b"), pair("nl", "x\ny\t\u{1}")];
    assert_eq!(
        encode_json_object(&pairs),
        "{\"q\\\"k\":\"a\\\\b\",\"nl\":\"x\\ny\\t\\u0001\"}"
    );
}

#[test]
fn encoded_body_parses_as_the_same_json_mapping() {
    let pairs = vec![pair("a", "1"), pair("b", "2")];
    let body = encode_json_object(&pairs);
    let v: serde_json::Value = serde_json::from_str(&body).unwrap();
    assert_eq!(v["a"], serde_json::Value::String("1".to_string()));
    assert_eq!(v["b"], serde_json::Value::String("2".to_string()));
}
