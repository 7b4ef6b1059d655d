//! The failures a request can meet, and the JSON error envelope that reports
//! them: `{"error": {"message": ..., "type": ...}}`.
use vstd::prelude::*;
use vstd::string::*;
use crate::json::{
    entries, insert_entry, json_text_of, new_object, no_entries, object_text, object_value,
    object_with, string_value, text_value,
};

verus! {

/// A request's failure, with a message for the caller.
#[derive(Debug, Clone)]
pub enum AppError {
    /// The credential is missing or malformed.
    Auth(String),
    /// The body is no JSON object, or could not be written back.
    Parse(String),
    /// The upstream could not be reached or answered unreadably.
    Proxy(String),
    /// TLS setup failed.
    Tls(String),
    /// The outbound request failed.
    Request(String),
    /// Local input or output failed.
    Io(String),
    /// Any other internal fault.
    Server(String),
}

/// The HTTP status that reports an error.
pub open spec fn status_of(e: AppError) -> u16 {
    match e {
        AppError::Auth(_) => 401,
        AppError::Parse(_) => 400,
        AppError::Proxy(_) => 502,
        AppError::Request(_) => 502,
        AppError::Tls(_) => 500,
        AppError::Io(_) => 500,
        AppError::Server(_) => 500,
    }
}

/// The `type` that the envelope gives an error.
pub open spec fn kind_of(e: AppError) -> Seq<char> {
    match e {
        AppError::Auth(_) => "auth_error"@,
        AppError::Parse(_) => "parse_error"@,
        AppError::Proxy(_) => "proxy_error"@,
        AppError::Request(_) => "request_error"@,
        AppError::Tls(_) => "tls_error"@,
        AppError::Io(_) => "io_error"@,
        AppError::Server(_) => "server_error"@,
    }
}

/// The message an error carries.
pub open spec fn message_of(e: AppError) -> Seq<char> {
    match e {
        AppError::Auth(m) => m@,
        AppError::Parse(m) => m@,
        AppError::Proxy(m) => m@,
        AppError::Request(m) => m@,
        AppError::Tls(m) => m@,
        AppError::Io(m) => m@,
        AppError::Server(m) => m@,
    }
}

/// The entries of the inner `error` object.
pub open spec fn envelope_fields(message: Seq<char>, kind: Seq<char>) -> Map<Seq<char>, serde_json::Value> {
    no_entries().insert("message"@, string_value(message)).insert("type"@, string_value(kind))
}

/// The entries of the envelope: one field `error`, an object of `message`
/// and `type`.
pub open spec fn envelope(message: Seq<char>, kind: Seq<char>) -> Map<Seq<char>, serde_json::Value> {
    no_entries().insert("error"@, object_with(envelope_fields(message, kind)))
}

impl AppError {
    /// The HTTP status for this error: 401 for credentials, 400 for the body,
    /// 502 for the upstream, 500 for the rest.
    pub fn status_code(&self) -> (r: u16)
        ensures
            r == status_of(*self),
    {
        match self {
            AppError::Auth(_) => 401,
            AppError::Parse(_) => 400,
            AppError::Proxy(_) => 502,
            AppError::Request(_) => 502,
            AppError::Tls(_) => 500,
            AppError::Io(_) => 500,
            AppError::Server(_) => 500,
        }
    }

    /// The envelope's `type` for this error.
    pub fn error_type(&self) -> (r: &'static str)
        ensures
            r@ == kind_of(*self),
    {
        match self {
            AppError::Auth(_) => "auth_error",
            AppError::Parse(_) => "parse_error",
            AppError::Proxy(_) => "proxy_error",
            AppError::Request(_) => "request_error",
            AppError::Tls(_) => "tls_error",
            AppError::Io(_) => "io_error",
            AppError::Server(_) => "server_error",
        }
    }

    /// The message this error carries.
    pub fn message(&self) -> (r: &str)
        ensures
            r@ == message_of(*self),
    {
        match self {
            AppError::Auth(m) => m.as_str(),
            AppError::Parse(m) => m.as_str(),
            AppError::Proxy(m) => m.as_str(),
            AppError::Request(m) => m.as_str(),
            AppError::Tls(m) => m.as_str(),
            AppError::Io(m) => m.as_str(),
            AppError::Server(m) => m.as_str(),
        }
    }

    /// The JSON error envelope for this error:
    /// `{"error": {"message": <message>, "type": <type>}}`.
    pub fn error_body(&self) -> (r: Vec<u8>)
        ensures
            r@ == json_text_of(envelope(message_of(*self), kind_of(*self))),
    {
        let mut inner = new_object();
        insert_entry(&mut inner, String::from_str("message"), text_value(String::from_str(self.message())));
        insert_entry(&mut inner, String::from_str("type"), text_value(String::from_str(self.error_type())));
        assert(entries(inner) == envelope_fields(message_of(*self), kind_of(*self)));
        let mut outer = new_object();
        insert_entry(&mut outer, String::from_str("error"), object_value(inner));
        assert(entries(outer) =~= envelope(message_of(*self), kind_of(*self)));
        match object_text(&outer) {
            Ok(text) => text,
            Err(_) => Vec::new(),
        }
    }
}

} // verus!
