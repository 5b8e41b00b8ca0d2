//! The write request to the time-series database, and what its response means.

use vstd::prelude::*;
use vstd::slice::{slice_subrange, slice_to_vec};
use vstd::string::*;
use vstd::utf8::*;

verus! {

/// Why a write to the database failed.
#[derive(Debug, Clone, Copy, PartialEq, Eq, Structural)]
pub enum Error {
    /// The request could not be sent or the response not be read.
    Transport,
    /// The database refused the write, and the body of its response is no UTF-8 text.
    Utf8,
    /// The database refused the write.
    Api,
}

/// One header of a request.
#[derive(Debug, Clone, PartialEq, Eq)]
pub struct Header {
    pub name: String,
    pub value: String,
}

/// A `POST` request.
#[derive(Debug, Clone, PartialEq, Eq)]
pub struct Request {
    /// Where the request goes: the address of the database, the path and the query.
    pub target: String,
    pub headers: Vec<Header>,
    pub body: Vec<u8>,
}

impl Request {
    /// The headers as pairs of name and value, in their order.
    pub open spec fn header_pairs(&self) -> Seq<(Seq<char>, Seq<char>)> {
        Seq::new(self.headers@.len(), |i: int| (self.headers@[i].name@, self.headers@[i].value@))
    }
}

/// The target of a write to `bucket` of `org`, with timestamps in nanoseconds, at the
/// database at `base`.
pub open spec fn write_target(base: Seq<char>, org: Seq<char>, bucket: Seq<char>) -> Seq<char> {
    base + "/api/v2/write?org="@ + org + "&bucket="@ + bucket + "&precision=ns"@
}

/// The value of the authorization header for `token`.
pub open spec fn authorization(token: Seq<char>) -> Seq<char> {
    "Token "@ + token
}

/// The headers of a write: who writes, what the body is, and what is accepted in return.
pub open spec fn write_headers(authorization: Seq<char>) -> Seq<(Seq<char>, Seq<char>)> {
    seq![
        ("Authorization"@, authorization),
        ("Content-Type"@, "text/plain"@),
        ("Accept"@, "application/json"@),
    ]
}

/// Whether `status` tells that the write was taken: 200, 201 or 202.
pub open spec fn accepted(status: u16) -> bool {
    status == 200 || status == 201 || status == 202
}

/// What a response means: success on an accepting status; else a failure of the write,
/// reported as undecodable where the body is no UTF-8 text.
pub open spec fn response_meaning(status: u16, body: Seq<u8>) -> Result<(), Error> {
    if accepted(status) {
        Ok(())
    } else if !valid_utf8(body) {
        Err(Error::Utf8)
    } else {
        Err(Error::Api)
    }
}

/// The most bytes of a response body that are looked at for a diagnosis.
pub const DIAGNOSTIC_LIMIT: usize = 128;

/// The part of a response body that is looked at for a diagnosis.
pub open spec fn diagnostic_part(body: Seq<u8>) -> Seq<u8> {
    if body.len() <= DIAGNOSTIC_LIMIT {
        body
    } else {
        body.take(DIAGNOSTIC_LIMIT as int)
    }
}

/// What a response body holds, for the log.
#[derive(Debug, Clone, PartialEq, Eq)]
pub enum Diagnostic {
    /// The body is empty.
    Empty,
    /// The beginning of the body, as text.
    Text(String),
    /// The beginning of the body is no UTF-8 text.
    Undecodable,
}

/// Decodes `bytes` with `core::str::from_utf8`. Taken on trust, as the documentation of that
/// function has it: there is a text exactly if the bytes are valid UTF-8, and the encoding of
/// the text is then those bytes.
#[verifier::external_body]
fn decode_text(bytes: &[u8]) -> (text: Option<String>)
    ensures
        text is Some <==> valid_utf8(bytes@),
        text matches Some(t) ==> encode_utf8(t@) == bytes@,
{
    match core::str::from_utf8(bytes) {
        Ok(text) => Some(text.to_string()),
        Err(_) => None,
    }
}

/// Whether `status` tells that the write was taken.
pub fn is_success(status: u16) -> (yes: bool)
    ensures
        yes == accepted(status),
{
    status == 200 || status == 201 || status == 202
}

/// Looks at the beginning of a response body, up to [`DIAGNOSTIC_LIMIT`] bytes of it.
pub fn diagnostic(body: &[u8]) -> (found: Diagnostic)
    ensures
        match found {
            Diagnostic::Empty => body@.len() == 0,
            Diagnostic::Text(text) => body@.len() > 0 && valid_utf8(diagnostic_part(body@))
                && encode_utf8(text@) == diagnostic_part(body@),
            Diagnostic::Undecodable => body@.len() > 0 && !valid_utf8(diagnostic_part(body@)),
        },
{
    if body.len() == 0 {
        return Diagnostic::Empty;
    }
    let part = if body.len() <= DIAGNOSTIC_LIMIT {
        proof {
            assert(body@.subrange(0, body@.len() as int) =~= body@);
        }
        slice_subrange(body, 0, body.len())
    } else {
        slice_subrange(body, 0, DIAGNOSTIC_LIMIT)
    };
    match decode_text(part) {
        Some(text) => Diagnostic::Text(text),
        None => Diagnostic::Undecodable,
    }
}

/// The writer's side of the database: where it is, and the token that it authorizes with.
#[derive(Debug, Clone, PartialEq, Eq)]
pub struct Client {
    base: String,
    token: String,
}

impl Client {
    /// The address of the database.
    pub closed spec fn base(&self) -> Seq<char> {
        self.base@
    }

    /// The value of the authorization header.
    pub closed spec fn token(&self) -> Seq<char> {
        self.token@
    }

    /// A client for the database at `base`, which authorizes with `token`.
    pub fn new(base: &str, token: &str) -> (client: Client)
        ensures
            client.base() == base@,
            client.token() == authorization(token@),
    {
        let header = String::from_str("Token ").concat(token);
        Client { base: String::from_str(base), token: header }
    }

    /// The request that writes `body` to `bucket` of `org`.
    pub fn write(&self, org: &str, bucket: &str, body: &[u8]) -> (request: Request)
        ensures
            request.target@ == write_target(self.base(), org@, bucket@),
            request.header_pairs() == write_headers(self.token()),
            request.body@ == body@,
    {
        let target = self.base.clone().concat("/api/v2/write?org=").concat(org).concat(
            "&bucket=",
        ).concat(bucket).concat("&precision=ns");
        let mut headers: Vec<Header> = Vec::new();
        headers.push(
            Header { name: String::from_str("Authorization"), value: self.token.clone() },
        );
        headers.push(
            Header { name: String::from_str("Content-Type"), value: String::from_str("text/plain") },
        );
        headers.push(
            Header { name: String::from_str("Accept"), value: String::from_str("application/json") },
        );
        let request = Request { target, headers, body: slice_to_vec(body) };
        proof {
            assert(request.header_pairs() =~= write_headers(self.token()));
        }
        request
    }

    /// What the response to a write means.
    pub fn check_response(status: u16, body: &[u8]) -> (outcome: Result<(), Error>)
        ensures
            outcome == response_meaning(status, body@),
    {
        if is_success(status) {
            Ok(())
        } else {
            match decode_text(body) {
                Some(_) => Err(Error::Api),
                None => Err(Error::Utf8),
            }
        }
    }
}

} // verus!
