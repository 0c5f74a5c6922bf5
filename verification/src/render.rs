use vstd::prelude::*;
use crate::error::HttpError;
use crate::json_check::is_valid_json;
use crate::json_check::json_is_valid;

verus! {

/// One completed response, as plain values: protocol version, status
/// text, the headers in transport order, and the decoded body text.
#[derive(Debug)]
pub struct ResponseData {
    pub version: String,
    pub status: String,
    pub headers: Vec<(String, String)>,
    pub body: String,
}

/// The code point of `c`, lowered to ASCII lower case.
pub open spec fn lower_code(c: char) -> int {
    if 65 <= c as int && c as int <= 90 {
        c as int + 32
    } else {
        c as int
    }
}

/// `a` and `b` are equal up to ASCII case.
pub open spec fn seq_eq_ascii_ci(a: Seq<char>, b: Seq<char>) -> bool {
    a.len() == b.len() && (forall|i: int| 0 <= i < a.len() ==> lower_code(a[i]) == lower_code(b[i]))
}

/// `c` is an ASCII space or horizontal tab.
pub open spec fn is_ws(c: char) -> bool {
    c == ' ' || c == '\t'
}

/// `i` is the position of the first `;` in `s`, or `s.len()` when `s`
/// holds none.
pub open spec fn is_first_semi(s: Seq<char>, i: int) -> bool {
    &&& 0 <= i <= s.len()
    &&& (i == s.len() || s[i] == ';')
    &&& (forall|j: int| 0 <= j < i ==> s[j] != ';')
}

/// `s` names the JSON media type: its text before the first `;` (any
/// parameters such as a charset are ignored), less surrounding spaces and
/// tabs, equals `application/json` up to ASCII case.
pub open spec fn is_json_content_type(s: Seq<char>) -> bool {
    exists|i: int, a: int, b: int|
        {
            &&& is_first_semi(s, i)
            &&& 0 <= a <= b <= i
            &&& (forall|j: int| 0 <= j < a ==> is_ws(s[j]))
            &&& (forall|j: int| b <= j < i ==> is_ws(s[j]))
            &&& (a == b || (!is_ws(s[a]) && !is_ws(s[b - 1])))
            &&& seq_eq_ascii_ci(s.subrange(a, b), "application/json"@)
        }
}

/// Compares two characters ignoring ASCII case.
fn char_eq_ci(a: char, b: char) -> (r: bool)
    ensures
        r == (lower_code(a) == lower_code(b)),
{
    let x: u32 = a as u32;
    let y: u32 = b as u32;
    let lx: u32 = if x >= 65 && x <= 90 {
        x + 32
    } else {
        x
    };
    let ly: u32 = if y >= 65 && y <= 90 {
        y + 32
    } else {
        y
    };
    lx == ly
}

/// Compares two strings ignoring ASCII case.
fn str_eq_ci(a: &str, b: &str) -> (r: bool)
    ensures
        r == seq_eq_ascii_ci(a@, b@),
{
    let na = a.unicode_len();
    let nb = b.unicode_len();
    if na != nb {
        return false;
    }
    let mut i: usize = 0;
    while i < na
        invariant
            na == a@.len(),
            na == b@.len(),
            0 <= i <= na,
            forall|j: int| 0 <= j < i ==> lower_code(a@[j]) == lower_code(b@[j]),
        decreases na - i,
    {
        if !char_eq_ci(a.get_char(i), b.get_char(i)) {
            return false;
        }
        i = i + 1;
    }
    true
}

/// `c` is an ASCII space or horizontal tab.
fn is_ws_char(c: char) -> (r: bool)
    ensures
        r == is_ws(c),
{
    c == ' ' || c == '\t'
}

/// Decides whether a content-type value names the JSON media type,
/// comparing only the type/subtype part: parameters after `;` and ASCII
/// case are ignored.
pub fn content_type_is_json(s: &str) -> (r: bool)
    ensures
        r == is_json_content_type(s@),
{
    let n = s.unicode_len();
    let mut i: usize = 0;
    while i < n && s.get_char(i) != ';'
        invariant
            n == s@.len(),
            0 <= i <= n,
            forall|j: int| 0 <= j < i ==> s@[j] != ';',
        decreases n - i,
    {
        i = i + 1;
    }
    proof {
        assert(is_first_semi(s@, i as int));
    }
    let mut a: usize = 0;
    while a < i && is_ws_char(s.get_char(a))
        invariant
            n == s@.len(),
            i <= n,
            0 <= a <= i,
            forall|j: int| 0 <= j < a ==> is_ws(s@[j]),
        decreases i - a,
    {
        a = a + 1;
    }
    let mut b: usize = i;
    while b > a && is_ws_char(s.get_char(b - 1))
        invariant
            n == s@.len(),
            i <= n,
            a <= b <= i,
            forall|j: int| b <= j < i ==> is_ws(s@[j]),
        decreases b,
    {
        b = b - 1;
    }
    let sub = s.substring_char(a, b);
    let m = str_eq_ci(sub, "application/json");
    if m {
        proof {
            let gi = i as int;
            let ga = a as int;
            let gb = b as int;
            assert(is_first_semi(s@, gi) && 0 <= ga <= gb <= gi && (forall|j: int|
                0 <= j < ga ==> is_ws(s@[j])) && (forall|j: int| gb <= j < gi ==> is_ws(s@[j])) && (
            ga == gb || (!is_ws(s@[ga]) && !is_ws(s@[gb - 1]))) && seq_eq_ascii_ci(
                s@.subrange(ga, gb),
                "application/json"@,
            ));
        }
        true
    } else {
        proof {
            reveal_strlit("application/json");
            assert(!is_json_content_type(s@)) by {
                if is_json_content_type(s@) {
                    let (i2, a2, b2) = choose|i2: int, a2: int, b2: int|
                        {
                            &&& is_first_semi(s@, i2)
                            &&& 0 <= a2 <= b2 <= i2
                            &&& (forall|j: int| 0 <= j < a2 ==> is_ws(s@[j]))
                            &&& (forall|j: int| b2 <= j < i2 ==> is_ws(s@[j]))
                            &&& (a2 == b2 || (!is_ws(s@[a2]) && !is_ws(s@[b2 - 1])))
                            &&& seq_eq_ascii_ci(s@.subrange(a2, b2), "application/json"@)
                        };
                    assert(s@.subrange(a2, b2).len() == 16);
                    assert(b2 - a2 == 16);
                    assert(i2 == i as int);
                    assert(a2 == a as int) by {
                        if a2 < a as int {
                            assert(is_ws(s@[a2]));
                        }
                        if a2 > a as int {
                            assert(is_ws(s@[a as int]));
                            assert((a as int) < i as int);
                        }
                    }
                    assert(b2 == b as int) by {
                        if b2 < b as int {
                            assert(is_ws(s@[b as int - 1]));
                        }
                        if b2 > b as int {
                            assert(is_ws(s@[b2 - 1]));
                        }
                    }
                    assert(seq_eq_ascii_ci(s@.subrange(a as int, b as int), "application/json"@));
                    assert(false);
                }
            }
        }
        false
    }
}

/// The views of the header pairs.
pub open spec fn header_views(hs: Seq<(String, String)>) -> Seq<(Seq<char>, Seq<char>)> {
    hs.map_values(|h: (String, String)| (h.0@, h.1@))
}

/// The name of the header that carries the content type.
pub open spec fn is_content_type_name(n: Seq<char>) -> bool {
    seq_eq_ascii_ci(n, "content-type"@)
}

/// The value of the first `Content-Type` header (header names compare
/// ignoring ASCII case), if any.
pub open spec fn spec_content_type(hs: Seq<(Seq<char>, Seq<char>)>) -> Option<Seq<char>>
    decreases hs.len(),
{
    if hs.len() == 0 {
        None
    } else if is_content_type_name(hs[0].0) {
        Some(hs[0].1)
    } else {
        spec_content_type(hs.drop_first())
    }
}

proof fn lemma_content_type_at(hs: Seq<(Seq<char>, Seq<char>)>, i: int)
    requires
        0 <= i < hs.len(),
        is_content_type_name(hs[i].0),
        forall|j: int| 0 <= j < i ==> !is_content_type_name(hs[j].0),
    ensures
        spec_content_type(hs) == Some(hs[i].1),
    decreases hs.len(),
{
    if i > 0 {
        assert forall|j: int| 0 <= j < i - 1 implies !is_content_type_name(
            hs.drop_first()[j].0,
        ) by {
            assert(hs.drop_first()[j] == hs[j + 1]);
        }
        assert(hs.drop_first()[i - 1] == hs[i]);
        lemma_content_type_at(hs.drop_first(), i - 1);
    }
}

proof fn lemma_content_type_none(hs: Seq<(Seq<char>, Seq<char>)>)
    requires
        forall|j: int| 0 <= j < hs.len() ==> !is_content_type_name(hs[j].0),
    ensures
        spec_content_type(hs) is None,
    decreases hs.len(),
{
    if hs.len() > 0 {
        assert forall|j: int| 0 <= j < hs.drop_first().len() implies !is_content_type_name(
            hs.drop_first()[j].0,
        ) by {
            assert(hs.drop_first()[j] == hs[j + 1]);
        }
        lemma_content_type_none(hs.drop_first());
    }
}

/// The view of an optional string.
pub open spec fn opt_str_view(o: Option<String>) -> Option<Seq<char>> {
    match o {
        Some(s) => Some(s@),
        None => None,
    }
}

/// Looks up the response's content type: the value of the first header
/// named `content-type`, compared ignoring ASCII case.
pub fn get_content_type(headers: &Vec<(String, String)>) -> (r: Option<String>)
    ensures
        opt_str_view(r) == spec_content_type(header_views(headers@)),
{
    let ghost hv: Seq<(Seq<char>, Seq<char>)> = header_views(headers@);
    let mut i: usize = 0;
    while i < headers.len()
        invariant
            hv == header_views(headers@),
            hv.len() == headers.len(),
            0 <= i <= headers.len(),
            forall|j: int| 0 <= j < i ==> !is_content_type_name(hv[j].0),
        decreases headers.len() - i,
    {
        proof {
            assert(hv[i as int] == (headers@[i as int].0@, headers@[i as int].1@));
        }
        if str_eq_ci(headers[i].0.as_str(), "content-type") {
            proof {
                lemma_content_type_at(hv, i as int);
            }
            return Some(headers[i].1.clone());
        }
        i = i + 1;
    }
    proof {
        lemma_content_type_none(hv);
    }
    None
}

/// The status line as shown: `version,status`.
pub open spec fn status_text(version: Seq<char>, status: Seq<char>) -> Seq<char> {
    version + ","@ + status
}

/// Renders the status line: the protocol version and the status, joined
/// by a comma.
pub fn render_status(version: &String, status: &String) -> (r: String)
    ensures
        r@ == status_text(version@, status@),
{
    let mut out = String::new();
    out.append(version.as_str());
    out.append(",");
    out.append(status.as_str());
    proof {
        assert(out@ =~= status_text(version@, status@));
    }
    out
}

/// The header block: one `name: value` line per header, in order.
pub open spec fn headers_text(hs: Seq<(Seq<char>, Seq<char>)>) -> Seq<char>
    decreases hs.len(),
{
    if hs.len() == 0 {
        Seq::empty()
    } else {
        headers_text(hs.drop_last()) + hs.last().0 + ": "@ + hs.last().1 + "\n"@
    }
}

/// Renders the header block: each header as a `name: value` line, in the
/// order the transport delivered them.
pub fn render_header_block(headers: &Vec<(String, String)>) -> (r: String)
    ensures
        r@ == headers_text(header_views(headers@)),
{
    let ghost hv: Seq<(Seq<char>, Seq<char>)> = header_views(headers@);
    let mut out = String::new();
    let mut i: usize = 0;
    while i < headers.len()
        invariant
            hv == header_views(headers@),
            hv.len() == headers.len(),
            0 <= i <= headers.len(),
            out@ == headers_text(hv.take(i as int)),
        decreases headers.len() - i,
    {
        out.append(headers[i].0.as_str());
        out.append(": ");
        out.append(headers[i].1.as_str());
        out.append("\n");
        proof {
            assert(hv[i as int] == (headers@[i as int].0@, headers@[i as int].1@));
            assert(hv.take(i + 1).drop_last() =~= hv.take(i as int));
            assert(hv.take(i + 1).last() == hv[i as int]);
            assert(out@ =~= headers_text(hv.take(i + 1)));
        }
        i = i + 1;
    }
    proof {
        assert(hv.take(headers.len() as int) =~= hv);
    }
    out
}

/// What `jsonxf::pretty_print` returns for a given text: `Some` with the
/// re-indented form when the formatter accepts the text, `None` when it
/// rejects it. The result depends on the text alone.
pub uninterp spec fn pretty_json(s: Seq<char>) -> Option<Seq<char>>;

/// Relies on `jsonxf::pretty_print`: re-indents a JSON text (two-space
/// indent, line-feed newlines, no trailing whitespace) and reports an
/// error for input it rejects. Its result depends on the input text
/// alone.
#[verifier::external_body]
fn jsonxf_pretty(s: &str) -> (r: Result<String, String>)
    ensures
        r matches Ok(t) ==> pretty_json(s@) == Some(t@),
        r is Err <==> pretty_json(s@) is None,
{
    jsonxf::pretty_print(s)
}

/// What the body block shows: the raw body, unless the response declares
/// the JSON media type, in which case the pretty-printed body (no value
/// where the body is not valid JSON, or the formatter rejects it).
pub open spec fn spec_render_body(ct: Option<Seq<char>>, body: Seq<char>) -> Option<Seq<char>> {
    match ct {
        Some(c) => if is_json_content_type(c) {
            if is_valid_json(body) {
                pretty_json(body)
            } else {
                None
            }
        } else {
            Some(body)
        },
        None => Some(body),
    }
}

/// Renders the body block. A body under any content type other than JSON
/// (or under none) is returned unmodified; a body declared as JSON is
/// pretty-printed, and rejected with `MalformedJsonBody` when it is not
/// a valid JSON text.
pub fn render_body(ct: &Option<String>, body: &String) -> (r: Result<String, HttpError>)
    ensures
        r matches Ok(t) ==> spec_render_body(opt_str_view(*ct), body@) == Some(t@),
        r is Err <==> spec_render_body(opt_str_view(*ct), body@) is None,
        r matches Err(e) ==> e is MalformedJsonBody,
{
    match ct {
        Some(c) => {
            if content_type_is_json(c.as_str()) {
                if !json_is_valid(body.as_str()) {
                    Err(HttpError::MalformedJsonBody)
                } else {
                    match jsonxf_pretty(body.as_str()) {
                        Ok(t) => Ok(t),
                        Err(_) => Err(HttpError::MalformedJsonBody),
                    }
                }
            } else {
                Ok(body.clone())
            }
        },
        None => Ok(body.clone()),
    }
}

/// The full rendered output: the status line, the header block and the
/// body block, separated by blank lines, each print ending in a newline.
pub open spec fn spec_render(
    version: Seq<char>,
    status: Seq<char>,
    hs: Seq<(Seq<char>, Seq<char>)>,
    body: Seq<char>,
) -> Option<Seq<char>> {
    match spec_render_body(spec_content_type(hs), body) {
        Some(b) => Some(
            status_text(version, status) + "\n\n"@ + headers_text(hs) + "\n\n"@ + b + "\n"@,
        ),
        None => None,
    }
}

/// Renders one completed response: status line, blank line, header
/// block, blank line, body block. Fails only with `MalformedJsonBody`,
/// exactly when the response declares JSON and the body is not a valid
/// JSON text (or the formatter rejects it).
pub fn render_response(resp: &ResponseData) -> (r: Result<String, HttpError>)
    ensures
        r matches Ok(t) ==> spec_render(resp.version@, resp.status@, header_views(resp.headers@), resp.body@)
            == Some(t@),
        r is Err <==> spec_render(resp.version@, resp.status@, header_views(resp.headers@), resp.body@)
            is None,
        r matches Err(e) ==> e is MalformedJsonBody,
{
    let ct = get_content_type(&resp.headers);
    let body = match render_body(&ct, &resp.body) {
        Ok(b) => b,
        Err(e) => {
            return Err(e);
        },
    };
    let mut out = render_status(&resp.version, &resp.status);
    out.append("\n\n");
    let header_block = render_header_block(&resp.headers);
    out.append(header_block.as_str());
    out.append("\n\n");
    out.append(body.as_str());
    out.append("\n");
    proof {
        assert(out@ =~= status_text(resp.version@, resp.status@) + "\n\n"@ + headers_text(
            header_views(resp.headers@),
        ) + "\n\n"@ + body@ + "\n"@);
    }
    Ok(out)
}

} // verus!
