use httpc::dispatch::plan_request;
use httpc::dispatch::Action;
use httpc::dispatch::Delete;
use httpc::dispatch::Get;
use httpc::dispatch::Method;
use httpc::dispatch::Post;
use httpc::dispatch::Put;
use httpc::dispatch::SubCommand;
use httpc::error::HttpError;
use httpc::kv::KvPair;
use httpc::render::render_response;
use httpc::render::ResponseData;
use httpc::url_check::parse_url;

fn pairs(tokens: &[&str]) -> Vec<KvPair> {
    tokens
        .iter()
        .map(|t| KvPair::from_str(t).unwrap())
        .collect()
}

#[test]
fn get_plans_bodyless_request() {
    let url = parse_url("https://example.com/status/200").unwrap();
    let cmd = SubCommand::Get(Get { url: url.clone() });
    match plan_request(&cmd) {
        Action::Send(p) => {
            assert!(matches!(p.method, Method::Get));
            assert_eq!(p.url, url);
            assert!(p.body.is_none());
            assert!(p.content_type.is_none());
        }
        _ => panic!("expected a planned request"),
    }
}

#[test]
fn get_response_renders_status_headers_then_body() {
    let resp = ResponseData {
        version: "HTTP/1.1".to_string(),
        status: "200 OK".to_string(),
        headers: vec![("content-type".to_string(), "text/plain".to_string())],
        body: "ok".to_string(),
    };
    let out = render_response(&resp).unwrap();
    let status_pos = out.find("200").unwrap();
    let header_pos = out.find("content-type: text/plain").unwrap();
    assert!(status_pos < header_pos);
    assert!(out.ends_with("\nok\n"));
}

#[test]
fn post_sends_json_object_and_echo_renders_pretty() {
    let url = parse_url("https://example.com/echo").unwrap();
    let cmd = SubCommand::Post(Post {
        url: url.clone(),
        body: pairs(&["a=1", "b=2"]),
    });
    let sent_body = match plan_request(&cmd) {
        Action::Send(p) => {
            assert!(matches!(p.method, Method::Post));
            assert_eq!(p.url, url);
            assert_eq!(p.content_type.as_deref(), Some("application/json"));
            p.body.unwrap()
        }
        _ => panic!("expected a planned request"),
    };
    assert_eq!(sent_body, "{\"a\":\"1\",\"b\":\"2\"}");

    let echoed = ResponseData {
        version: "HTTP/1.1".to_string(),
        status: "200 OK".to_string(),
        headers: vec![(
            "content-type".to_string(),
            "application/json".to_string(),
        )],
        body: sent_body,
    };
    let out = render_response(&echoed).unwrap();
    assert!(out.contains("{\n  \"a\": \"1\",\n  \"b\": \"2\"\n}"));
}

#[test]
fn invalid_url_fails_before_any_request_is_planned() {
    assert!(matches!(
        parse_url("not-a-url"),
        Err(HttpError::InvalidUrl { .. })
    ));
}

#[test]
fn malformed_body_token_fails_before_any_request_is_planned() {
    assert!(matches!(
        KvPair::from_str("malformed"),
        Err(HttpError::MalformedKeyValuePair { .. })
    ));
}

#[test]
fn put_and_delete_are_reported_unsupported() {
    let url = parse_url("https://example.com/x").unwrap();
    let put = SubCommand::Put(Put {
        url: url.clone(),
        body: pairs(&["a=1"]),
    });
    assert!(matches!(plan_request(&put), Action::Unsupported));
    let del = SubCommand::Delete(Delete { url });
    assert!(matches!(plan_request(&del), Action::Unsupported));
}

#[test]
fn duplicate_post_keys_collapse_last_write_wins() {
    let cmd = SubCommand::Post(Post {
        url: parse_url("https://example.com/echo").unwrap(),
        body: pairs(&["a=1", "b=2", "a=3"]),
    });
    match plan_request(&cmd) {
        Action::Send(p) => assert_eq!(p.body.unwrap(), "{\"a\":\"3\",\"b\":\"2\"}"),
        _ => panic!("expected a planned request"),
    }
}

#[test]
fn error_messages_describe_each_kind() {
    let transport = HttpError::TransportError {
        message: "connection refused".to_string(),
    };
    assert_eq!(transport.message(), "transport error: connection refused");
    assert_eq!(
        HttpError::MalformedJsonBody.message(),
        "response body is not valid JSON"
    );
    assert_eq!(
        HttpError::HeaderDecodeError.message(),
        "response header value is not valid text"
    );
}
