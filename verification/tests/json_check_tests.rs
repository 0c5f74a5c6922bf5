use httpc::error::HttpError;
use httpc::json_check::json_is_valid;
use httpc::render::render_body;
use httpc::render::render_response;
use httpc::render::ResponseData;

#[test]
fn accepts_valid_json_texts() {
    for text in [
        "{}",
        "[]",
        "0",
        "-0.5",
        "12.25e+2",
        "true",
        "false",
        "null",
        "\"str\"",
        "\"esc \\\" \\\\ \\n \\u0041\"",
        "{\"a\":1,\"b\":[true,null,{\"c\":\"d\"}]}",
        "  [ 1 , 2.5e-3 , \"x\" ]  ",
        "{ \"k\" : { } }",
    ] {
        assert!(json_is_valid(text), "should accept: {}", text);
        assert!(
            serde_json::from_str::<serde_json::Value>(text).is_ok(),
            "reference parser disagrees on: {}",
            text
        );
    }
}

#[test]
fn rejects_invalid_json_texts() {
    for text in [
        "",
        "   ",
        "{",
        "}",
        "{\"a\":}",
        "{\"a\" 1}",
        "{\"a\":1,}",
        "{\"a\":1 \"b\":2}",
        "{a:1}",
        "[1,]",
        "[1 2]",
        "\"unterminated",
        "\"bad \\x escape\"",
        "tru",
        "nul",
        "falsey",
        "+1",
        "01",
        "1.",
        "-",
        "--1",
        "1e",
        "not json",
        "{} {}",
        "\"ctrl \u{1} char\"",
    ] {
        assert!(!json_is_valid(text), "should reject: {}", text);
        assert!(
            serde_json::from_str::<serde_json::Value>(text).is_err(),
            "reference parser disagrees on: {}",
            text
        );
    }
}

#[test]
fn declared_json_with_invalid_body_is_malformed() {
    let r = render_body(&Some("application/json".to_string()), &"not json".to_string());
    assert!(matches!(r, Err(HttpError::MalformedJsonBody)));
}

#[test]
fn malformed_json_body_fails_response_rendering() {
    let resp = ResponseData {
        version: "HTTP/1.1".to_string(),
        status: "200 OK".to_string(),
        headers: vec![(
            "content-type".to_string(),
            "application/json; charset=utf-8".to_string(),
        )],
        body: "{\"truncated\":".to_string(),
    };
    let e = render_response(&resp).unwrap_err();
    assert!(matches!(e, HttpError::MalformedJsonBody));
    assert_eq!(e.message(), "response body is not valid JSON");
}

#[test]
fn invalid_body_under_other_content_type_still_renders() {
    let r = render_body(&Some("text/plain".to_string()), &"{not json".to_string());
    assert_eq!(r.unwrap(), "{not json");
}
