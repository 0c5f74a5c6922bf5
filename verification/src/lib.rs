//! A minimal HTTP client library: URL validation, `key=value` request-body
//! parsing, request planning for the four subcommands, and response
//! rendering with JSON-aware body formatting.
pub mod error;
pub mod kv;
pub mod body;
pub mod json;
pub mod json_check;
pub mod render;
pub mod url_check;
pub mod dispatch;
