//! Requests and responses as the scenarios see them, and the decisions of
//! the transport that do not depend on the connection.

use crate::json::{compact_json, json_compact, Json};
use crate::text::{chars_of, contains_chars, contains_seq};
use vstd::prelude::*;
use vstd::string::StringExecFns;

verus! {

/// A span of time: whole seconds and the nanoseconds beyond them.
#[derive(Debug, PartialEq, Eq, Clone, Copy)]
pub struct TimeSpan {
    pub secs: u64,
    pub nanos: u32,
}

/// A header: its name and its value.
#[derive(Debug, PartialEq)]
pub struct Header {
    pub name: String,
    pub value: String,
}

impl Clone for Header {
    fn clone(&self) -> (r: Header)
        ensures
            r == *self,
    {
        Header { name: self.name.clone(), value: self.value.clone() }
    }
}

/// A request that is ready to be sent.
#[derive(Debug, PartialEq)]
pub struct HttpRequest {
    pub uri: String,
    pub method: String,
    pub headers: Option<Vec<Header>>,
    /// The body as compact JSON text.
    pub body: Option<String>,
    pub timeout: TimeSpan,
}

/// A response that has arrived in full.
#[derive(Debug, PartialEq)]
pub struct HttpResponse {
    pub status: u16,
    pub headers: Vec<Header>,
    /// The body as a document, where the response carried JSON.
    pub body: Option<Json>,
    /// The same body as compact JSON text.
    pub body_text: Option<String>,
    /// The time from the start of the request to the arrival of the
    /// response, in microseconds.
    pub elapsed_micros: u64,
    /// How often the submission of the request was tried again.
    pub retry_count: u8,
}

/// An error of the transport.
#[derive(Debug, PartialEq)]
pub struct HttpError(pub String);

impl HttpError {
    /// The error as a line for a log or a report.
    pub fn message(&self) -> (r: String)
        ensures
            r@ == "HttpError: "@ + self.0@,
    {
        String::from_str("HttpError: ").concat(self.0.as_str())
    }
}

/// The lower-case form of an ASCII letter; any other character as it is.
pub open spec fn lower(c: char) -> char {
    if 'A' <= c <= 'Z' {
        ((c as u8) + 32) as char
    } else {
        c
    }
}

/// Whether two header names are the same but for the case of their ASCII
/// letters.
pub open spec fn same_name(a: Seq<char>, b: Seq<char>) -> bool {
    a.len() == b.len() && forall|i: int| 0 <= i < a.len() ==> lower(a[i]) == lower(b[i])
}

/// The value of the first header named `name`, whatever the case of the
/// letters in the two names.
pub open spec fn header_value(headers: Seq<Header>, name: Seq<char>) -> Option<Seq<char>>
    decreases headers.len(),
{
    if headers.len() == 0 {
        None
    } else if same_name(headers[0].name@, name) {
        Some(headers[0].value@)
    } else {
        header_value(headers.drop_first(), name)
    }
}

fn lower_of(c: char) -> (r: char)
    ensures
        r == lower(c),
{
    if c >= 'A' && c <= 'Z' {
        ((c as u8) + 32) as char
    } else {
        c
    }
}

fn names_match(a: &Vec<char>, b: &Vec<char>) -> (r: bool)
    ensures
        r == same_name(a@, b@),
{
    if a.len() != b.len() {
        return false;
    }
    let mut i: usize = 0;
    while i < a.len()
        invariant
            i <= a.len() == b.len(),
            forall|k: int| 0 <= k < i ==> lower(a@[k]) == lower(b@[k]),
        decreases a.len() - i,
    {
        if lower_of(a[i]) != lower_of(b[i]) {
            return false;
        }
        i += 1;
    }
    true
}

/// The value of the first header named `name`, whatever the case of the
/// letters in the two names.
pub fn find_header<'a>(headers: &'a Vec<Header>, name: &str) -> (r: Option<&'a String>)
    ensures
        match header_value(headers@, name@) {
            Some(v) => r is Some && r->Some_0@ == v,
            None => r is None,
        },
{
    let wanted = chars_of(name);
    let mut i: usize = 0;
    assert(headers@.skip(0) == headers@);
    while i < headers.len()
        invariant
            i <= headers.len(),
            wanted@ == name@,
            header_value(headers@.skip(i as int), name@) == header_value(headers@, name@),
        decreases headers.len() - i,
    {
        let ghost rest = headers@.skip(i as int);
        assert(rest[0] == headers@[i as int]);
        assert(rest.drop_first() == headers@.skip(i + 1));
        let current = chars_of(headers[i].name.as_str());
        if names_match(&current, &wanted) {
            return Some(&headers[i].value);
        }
        i += 1;
    }
    None
}

/// The content type that the headers declare, if they declare one.
pub fn get_content_type(headers: &Vec<Header>) -> (r: Option<String>)
    ensures
        match header_value(headers@, "content-type"@) {
            Some(v) => r is Some && r->Some_0@ == v,
            None => r is None,
        },
{
    match find_header(headers, "content-type") {
        Some(value) => Some(value.clone()),
        None => None,
    }
}

/// Whether a body under these headers is to be read as JSON: the body is
/// not empty and the content type holds `application/json`.
pub open spec fn declares_json(body: Seq<char>, headers: Seq<Header>) -> bool {
    body.len() > 0 && match header_value(headers, "content-type"@) {
        Some(content_type) => contains_seq(content_type, "application/json"@),
        None => false,
    }
}

/// The JSON body of a response, as compact text: `None` for an empty body,
/// for a content type that does not hold `application/json`, and for a
/// body that is no JSON.
pub fn parse_json_body(response_body: &str, headers: &Vec<Header>) -> (r: Option<String>)
    ensures
        match (if declares_json(response_body@, headers@) {
            json_compact(response_body@)
        } else {
            None
        }) {
            Some(text) => r is Some && r->Some_0@ == text,
            None => r is None,
        },
{
    let body = chars_of(response_body);
    if body.len() == 0 {
        return None;
    }
    let content_type = match get_content_type(headers) {
        Some(content_type) => content_type,
        None => {
            return None;
        },
    };
    let declared = chars_of(content_type.as_str());
    let wanted = chars_of("application/json");
    if !contains_chars(&declared, &wanted) {
        return None;
    }
    compact_json(response_body)
}

/// The text that goes on the wire as the body of a request: the compact
/// JSON of the body, or `null` for a request without one.
pub fn wire_body(request: &HttpRequest) -> (r: String)
    ensures
        r@ == match request.body {
            Some(body) => body@,
            None => "null"@,
        },
{
    match &request.body {
        Some(body) => body.clone(),
        None => String::from_str("null"),
    }
}

/// What the transport does after a failed submission of a request.
#[derive(Debug, PartialEq, Eq, Clone, Copy)]
pub enum RetryDecision {
    /// Wait for the given number of milliseconds and submit again.
    RetryAfter(u64),
    /// Report the failure as a transport error.
    GiveUp,
}

/// What to do after the submission of a request has failed, given how
/// often it was tried again before: the first failure is followed by one
/// more try a millisecond later, a further failure is final.
pub fn after_failed_submission(retries_before: u8) -> (r: RetryDecision)
    ensures
        r == if retries_before == 0 {
            RetryDecision::RetryAfter(1)
        } else {
            RetryDecision::GiveUp
        },
{
    if retries_before == 0 {
        RetryDecision::RetryAfter(1)
    } else {
        RetryDecision::GiveUp
    }
}

} // verus!
