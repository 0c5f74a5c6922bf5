use vstd::prelude::*;

verus! {

/// The error kinds this client reports. Every error is terminal for the
/// single-shot invocation: it is reported once and the process exits
/// non-zero; nothing is retried.
#[derive(Debug)]
pub enum HttpError {
    /// The URL argument does not parse as an absolute URL; carries the
    /// offending input and the parser's reason.
    InvalidUrl { input: String, reason: String },
    /// A request-body token holds no `=` separator; carries the token.
    MalformedKeyValuePair { token: String },
    /// The network layer failed before a well-formed response arrived.
    TransportError { message: String },
    /// The response declared a JSON content type but its body would not
    /// format as JSON.
    MalformedJsonBody,
    /// A response header value is not valid text.
    HeaderDecodeError,
}

/// The text that `HttpError::message` returns for each error kind.
pub open spec fn spec_message(e: HttpError) -> Seq<char> {
    match e {
        HttpError::InvalidUrl { input, reason } => "invalid URL "@ + input@ + ": "@ + reason@,
        HttpError::MalformedKeyValuePair { token } => (
            "malformed key=value pair: "@ + token@
        ),
        HttpError::TransportError { message } => "transport error: "@ + message@,
        HttpError::MalformedJsonBody => "response body is not valid JSON"@,
        HttpError::HeaderDecodeError => "response header value is not valid text"@,
    }
}

impl HttpError {
    /// A human-readable description of the error, suitable for standard
    /// error output.
    pub fn message(&self) -> (r: String)
        ensures
            r@ == spec_message(*self),
    {
        match self {
            HttpError::InvalidUrl { input, reason } => {
                let mut m = String::from_str("invalid URL ");
                m.append(input.as_str());
                m.append(": ");
                m.append(reason.as_str());
                m
            },
            HttpError::MalformedKeyValuePair { token } => {
                let mut m = String::from_str("malformed key=value pair: ");
                m.append(token.as_str());
                m
            },
            HttpError::TransportError { message } => {
                let mut m = String::from_str("transport error: ");
                m.append(message.as_str());
                m
            },
            HttpError::MalformedJsonBody => String::from_str("response body is not valid JSON"),
            HttpError::HeaderDecodeError => String::from_str(
                "response header value is not valid text",
            ),
        }
    }
}

} // verus!
