use vstd::prelude::*;
use crate::kv::KvPair;
use crate::body::build_body;
use crate::body::dedup_pairs;
use crate::body::pair_views;
use crate::json::encode_json_object;
use crate::json::json_object_text;

verus! {

/// The `get` subcommand: a validated URL, no body.
#[derive(Debug)]
pub struct Get {
    pub url: String,
}

/// The `post` subcommand: a validated URL and the body pairs in
/// command-line order.
#[derive(Debug)]
pub struct Post {
    pub url: String,
    pub body: Vec<KvPair>,
}

/// The `put` subcommand: accepted on the command line, performs no
/// network action.
#[derive(Debug)]
pub struct Put {
    pub url: String,
    pub body: Vec<KvPair>,
}

/// The `delete` subcommand: accepted on the command line, performs no
/// network action.
#[derive(Debug)]
pub struct Delete {
    pub url: String,
}

/// One parsed invocation: exactly one subcommand.
#[derive(Debug)]
pub enum SubCommand {
    Get(Get),
    Post(Post),
    Put(Put),
    Delete(Delete),
}

/// The HTTP method of a planned request.
#[derive(Debug)]
pub enum Method {
    Get,
    Post,
}

/// One outbound request, ready to send: method, target URL, and for a
/// POST the JSON body together with its content type.
#[derive(Debug)]
pub struct RequestPlan {
    pub method: Method,
    pub url: String,
    pub body: Option<String>,
    pub content_type: Option<String>,
}

/// What one invocation does: send a single request, or refuse an
/// unimplemented subcommand outright. The refusal is explicit, never a
/// silent no-op.
#[derive(Debug)]
pub enum Action {
    Send(RequestPlan),
    Unsupported,
}

/// Maps a parsed subcommand to its action, exhaustively. GET plans a
/// bodyless request to its URL. POST plans a request whose body is the
/// JSON object built from its pairs, duplicate keys collapsed
/// last-write-wins, under the `application/json` content type. PUT and
/// DELETE are reported unsupported: they plan no request.
pub fn plan_request(cmd: &SubCommand) -> (r: Action)
    ensures
        cmd matches SubCommand::Get(g) ==> (r matches Action::Send(p) && p.method is Get
            && p.url@ == g.url@ && p.body is None && p.content_type is None),
        cmd matches SubCommand::Post(q) ==> (r matches Action::Send(p) && p.method is Post
            && p.url@ == q.url@ && (p.body matches Some(b) && b@ == json_object_text(
            dedup_pairs(pair_views(q.body@)),
        )) && (p.content_type matches Some(c) && c@ == "application/json"@)),
        (cmd is Put || cmd is Delete) <==> r is Unsupported,
{
    match cmd {
        SubCommand::Get(g) => Action::Send(
            RequestPlan { method: Method::Get, url: g.url.clone(), body: None, content_type: None },
        ),
        SubCommand::Post(q) => {
            let deduped = build_body(&q.body);
            let body = encode_json_object(&deduped);
            Action::Send(
                RequestPlan {
                    method: Method::Post,
                    url: q.url.clone(),
                    body: Some(body),
                    content_type: Some(String::from_str("application/json")),
                },
            )
        },
        SubCommand::Put(_) => Action::Unsupported,
        SubCommand::Delete(_) => Action::Unsupported,
    }
}

} // verus!
