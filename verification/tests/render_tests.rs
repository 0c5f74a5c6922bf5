use httpc::render::content_type_is_json;
use httpc::render::get_content_type;
use httpc::render::render_body;
use httpc::render::render_header_block;
use httpc::render::render_response;
use httpc::render::render_status;
use httpc::render::ResponseData;

fn hdr(n: &str, v: &str) -> (String, String) {
    (n.to_string(), v.to_string())
}

#[test]
fn json_content_type_matches() {
    assert!(content_type_is_json("application/json"));
}

#[test]
fn json_content_type_ignores_parameters() {
    assert!(content_type_is_json("application/json; charset=utf-8"));
}

#[test]
fn json_content_type_ignores_ascii_case_and_padding() {
    assert!(content_type_is_json("Application/JSON"));
    assert!(content_type_is_json("  application/json  ; charset=utf-8"));
}

#[test]
fn other_content_types_do_not_match() {
    assert!(!content_type_is_json("text/plain"));
    assert!(!content_type_is_json("application/jsonx"));
    assert!(!content_type_is_json(""));
}

#[test]
fn finds_content_type_header_ignoring_case() {
    let headers = vec![hdr("Server", "x"), hdr("Content-Type", "text/plain")];
    assert_eq!(get_content_type(&headers), Some("text/plain".to_string()));
}

#[test]
fn first_content_type_header_wins() {
    let headers = vec![hdr("content-type", "a/b"), hdr("content-type", "c/d")];
    assert_eq!(get_content_type(&headers), Some("a/b".to_string()));
}

#[test]
fn missing_content_type_is_none() {
    let headers = vec![hdr("Server", "x")];
    assert_eq!(get_content_type(&headers), None);
}

#[test]
fn status_line_joins_version_and_status() {
    let r = render_status(&"HTTP/1.1".to_string(), &"200 OK".to_string());
    assert_eq!(r, "HTTP/1.1,200 OK");
}

#[test]
fn header_block_lists_headers_in_order() {
    let headers = vec![hdr("server", "demo"), hdr("content-length", "2")];
    let r = render_header_block(&headers);
    assert_eq!(r, "server: demo\ncontent-length: 2\n");
}

#[test]
fn plain_body_is_unmodified() {
    let r = render_body(&Some("text/plain".to_string()), &"hello\nworld".to_string());
    assert_eq!(r.unwrap(), "hello\nworld");
}

#[test]
fn absent_content_type_leaves_body_unmodified() {
    let r = render_body(&None, &"{\"not\":\"touched\"}".to_string());
    assert_eq!(r.unwrap(), "{\"not\":\"touched\"}");
}

#[test]
fn json_body_is_pretty_printed() {
    let r = render_body(
        &Some("application/json".to_string()),
        &"{\"a\":1,\"b\":2}".to_string(),
    );
    assert_eq!(r.unwrap(), "{\n  \"a\": 1,\n  \"b\": 2\n}");
}

#[test]
fn pretty_printed_json_round_trips() {
    let original = "{\"a\":{\"deep\":[1,2,3]},\"b\":\"text\"}".to_string();
    let rendered = render_body(&Some("application/json".to_string()), &original).unwrap();
    let before: serde_json::Value = serde_json::from_str(&original).unwrap();
    let after: serde_json::Value = serde_json::from_str(&rendered).unwrap();
    assert_eq!(before, after);
}

#[test]
fn renders_full_plain_response() {
    let resp = ResponseData {
        version: "HTTP/1.1".to_string(),
        status: "200 OK".to_string(),
        headers: vec![hdr("content-type", "text/plain")],
        body: "ok".to_string(),
    };
    let out = render_response(&resp).unwrap();
    assert_eq!(out, "HTTP/1.1,200 OK\n\ncontent-type: text/plain\n\n\nok\n");
    assert!(out.contains("200"));
    assert!(out.lines().any(|l| l == "ok"));
}

#[test]
fn renders_full_json_response_pretty() {
    let resp = ResponseData {
        version: "HTTP/1.1".to_string(),
        status: "200 OK".to_string(),
        headers: vec![hdr("content-type", "application/json")],
        body: "{\"a\":\"1\",\"b\":\"2\"}".to_string(),
    };
    let out = render_response(&resp).unwrap();
    assert_eq!(
        out,
        "HTTP/1.1,200 OK\n\ncontent-type: application/json\n\n\n{\n  \"a\": \"1\",\n  \"b\": \"2\"\n}\n"
    );
}
