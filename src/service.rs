//! The decisions of one digest request: whether it can go ahead, whether a
//! fetch succeeded, and which response each outcome gets.
use crate::encoder::{encode_sha256_digest, sha256_digest, sha256_of, EncodeError};
use crate::layout::digest_text;
use vstd::prelude::*;

verus! {

/// HTTP status of a successful digest.
pub const STATUS_OK: u16 = 200;

/// HTTP status of a request without a URL.
pub const STATUS_BAD_REQUEST: u16 = 400;

/// HTTP status of a failed fetch or encoding.
pub const STATUS_SERVER_ERROR: u16 = 500;

/// Why fetching a URL failed. The three causes are told apart for logging;
/// the response is the same for all of them.
#[derive(Debug, Clone, Copy, PartialEq, Eq, Structural)]
pub enum FetchError {
    /// The host could not be reached (DNS, connection, TLS, malformed URL).
    Transport,
    /// The server answered with a status outside 2xx.
    Status(u16),
    /// The body could not be read after the headers came.
    Body,
}

/// The failure a response reports.
#[derive(Debug, Clone, Copy, PartialEq, Eq, Structural)]
pub enum Failure {
    /// The request body could not be parsed or has no `url`.
    MissingUrl,
    /// The URL could not be fetched.
    FetchFailed,
    /// The digest could not be written as an identifier.
    EncodeFailed,
}

/// What a response carries: the digest text, or a failure.
#[derive(Debug, Clone, PartialEq, Eq)]
pub enum Reply {
    Digest(String),
    Failure(Failure),
}

/// A response: HTTP status and what it carries.
#[derive(Debug, Clone, PartialEq, Eq)]
pub struct Response {
    pub status: u16,
    pub reply: Reply,
}

/// The JSON payload of a response: the field it fills and the text in it.
/// A missing URL fills `error`; the digest, and a failed fetch or encoding,
/// fill `digest_multibase`.
#[derive(Debug, Clone, PartialEq, Eq)]
pub enum Payload {
    DigestMultibase(String),
    Error(String),
}

/// What to do first with a request.
#[derive(Debug, Clone, PartialEq, Eq)]
pub enum Step {
    /// Fetch this URL, then hand the outcome to `finish_request`.
    Fetch(String),
    /// Answer at once.
    Respond(Response),
}

/// The HTTP status that goes with a failure.
pub open spec fn failure_status(f: Failure) -> u16 {
    match f {
        Failure::MissingUrl => STATUS_BAD_REQUEST,
        _ => STATUS_SERVER_ERROR,
    }
}

/// The text that reports a failure to the caller.
pub open spec fn failure_message(f: Failure) -> Seq<char> {
    match f {
        Failure::MissingUrl => "Missing required field: url"@,
        Failure::FetchFailed => "Error fetching URL"@,
        Failure::EncodeFailed => "Error converting multihash to base64"@,
    }
}

/// The response that reports a failure.
pub open spec fn failure_response(f: Failure) -> Response {
    Response { status: failure_status(f), reply: Reply::Failure(f) }
}

/// The response that carries digest text `text`.
pub open spec fn is_digest_response(r: Response, text: Seq<char>) -> bool {
    r.status == STATUS_OK && (r.reply matches Reply::Digest(s) && s@ == text)
}

impl Failure {
    /// The HTTP status of this failure.
    pub fn status(&self) -> (r: u16)
        ensures
            r == failure_status(*self),
    {
        match self {
            Failure::MissingUrl => STATUS_BAD_REQUEST,
            _ => STATUS_SERVER_ERROR,
        }
    }

    /// A short text for the caller.
    pub fn message(&self) -> (r: &'static str)
        ensures
            r@ == failure_message(*self),
    {
        match self {
            Failure::MissingUrl => "Missing required field: url",
            Failure::FetchFailed => "Error fetching URL",
            Failure::EncodeFailed => "Error converting multihash to base64",
        }
    }
}

/// The response for failure `f`.
pub fn respond_failure(f: Failure) -> (r: Response)
    ensures
        r == failure_response(f),
{
    Response { status: f.status(), reply: Reply::Failure(f) }
}

/// The JSON payload of a response.
pub fn payload(r: &Response) -> (p: Payload)
    ensures
        r.reply matches Reply::Digest(s) ==> (p matches Payload::DigestMultibase(t) && t@ == s@),
        r.reply == Reply::Failure(Failure::MissingUrl) ==> (p matches Payload::Error(t) && t@
            == failure_message(Failure::MissingUrl)),
        r.reply matches Reply::Failure(f) ==> (f != Failure::MissingUrl ==> (
        p matches Payload::DigestMultibase(t) && t@ == failure_message(f))),
{
    match &r.reply {
        Reply::Digest(s) => Payload::DigestMultibase(s.clone()),
        Reply::Failure(Failure::MissingUrl) => Payload::Error(
            Failure::MissingUrl.message().to_owned(),
        ),
        Reply::Failure(f) => Payload::DigestMultibase(f.message().to_owned()),
    }
}

/// Checks the HTTP status of a fetched resource: only 2xx lets the body be used.
pub fn check_status(status: u16) -> (r: Result<(), FetchError>)
    ensures
        r is Ok <==> 200 <= status < 300,
        r matches Err(e) ==> e == FetchError::Status(status),
{
    if 200 <= status && status < 300 {
        Ok(())
    } else {
        Err(FetchError::Status(status))
    }
}

/// The first step of a request: without a URL it is answered at once with a
/// client error; with one, that URL is fetched.
pub fn start_request(url: Option<String>) -> (r: Step)
    ensures
        url is None ==> r == Step::Respond(failure_response(Failure::MissingUrl)),
        url matches Some(u) ==> (r matches Step::Fetch(v) && v@ == u@),
{
    match url {
        None => Step::Respond(respond_failure(Failure::MissingUrl)),
        Some(u) => Step::Fetch(u),
    }
}

/// The response that names SHA2-256 digest `digest`, or reports that it could
/// not be encoded.
pub fn respond_with_digest(digest: &[u8]) -> (r: Response)
    ensures
        digest@.len() <= 64 ==> is_digest_response(r, digest_text(digest@)),
        digest@.len() > 64 ==> r == failure_response(Failure::EncodeFailed),
{
    match encode_sha256_digest(digest) {
        Ok(s) => Response { status: STATUS_OK, reply: Reply::Digest(s) },
        Err(EncodeError::DigestTooLong) => respond_failure(Failure::EncodeFailed),
    }
}

/// The response to a request once its URL was fetched: the content digest of
/// the fetched bytes, or a server error when the fetch failed.
pub fn finish_request(fetched: Result<Vec<u8>, FetchError>) -> (r: Response)
    ensures
        fetched is Err ==> r == failure_response(Failure::FetchFailed),
        fetched matches Ok(b) ==> is_digest_response(r, digest_text(sha256_of(b@))),
{
    match fetched {
        Err(_) => respond_failure(Failure::FetchFailed),
        Ok(bytes) => {
            let digest = sha256_digest(bytes.as_slice());
            respond_with_digest(digest.as_slice())
        },
    }
}

} // verus!
