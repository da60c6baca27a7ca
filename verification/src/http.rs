//! HTTP replies of a node.

use crate::text::decimal;
use reqwest::StatusCode;
use vstd::prelude::*;

verus! {

/// The status code of an HTTP reply, a number of three digits.
#[derive(Debug, Clone, Copy, PartialEq, Eq, Structural)]
pub struct Status {
    code: u16,
}

impl View for Status {
    type V = u16;

    closed spec fn view(&self) -> u16 {
        self.code
    }
}

impl Status {
    #[verifier::type_invariant]
    spec fn three_digits(self) -> bool {
        100 <= self.code <= 999
    }

    /// The status code with a number, where there is one.
    pub fn new(code: u16) -> (res: Option<Status>)
        ensures
            res is Some <==> 100 <= code <= 999,
            res is Some ==> res->0@ == code,
    {
        if 100 <= code && code <= 999 {
            Some(Status { code })
        } else {
            None
        }
    }

    /// The number of the status code.
    pub fn code(&self) -> (res: u16)
        ensures
            res == self@,
            100 <= res <= 999,
    {
        proof {
            use_type_invariant(self);
        }
        self.code
    }

    /// What the status code says of its reply.
    pub fn class(&self) -> (res: StatusClass)
        ensures
            res == class_of(self@),
            res == StatusClass::Success <==> 200 <= self@ <= 299,
            res == StatusClass::NotFound <==> self@ == 404,
            res == StatusClass::Failure <==> !(200 <= self@ <= 299) && self@ != 404,
    {
        if 200 <= self.code && self.code < 300 {
            StatusClass::Success
        } else if self.code == 404 {
            StatusClass::NotFound
        } else {
            StatusClass::Failure
        }
    }
}

/// The kinds of reply that are told apart.
#[derive(Debug, Clone, Copy, PartialEq, Eq, Structural)]
pub enum StatusClass {
    Success,
    NotFound,
    Failure,
}

/// The kind of reply that a status code announces.
pub open spec fn class_of(code: u16) -> StatusClass {
    if 200 <= code < 300 {
        StatusClass::Success
    } else if code == 404 {
        StatusClass::NotFound
    } else {
        StatusClass::Failure
    }
}

/// What came of an HTTP request.
#[derive(Debug)]
pub enum HttpReply {
    /// No reply, and what was said of it.
    NetworkError(String),
    /// A reply whose status is a success, with its body where that could be read.
    Success(Option<Vec<u8>>),
    /// A reply that nothing was found.
    NotFound,
    /// Any other reply, with its body as text where that could be read.
    Failure { status: Status, body: Option<String> },
}

/// The text of the body of a failure.
pub open spec fn failure_chars(body: Option<String>) -> Seq<char> {
    match body {
        Some(text) => text@,
        None => "Unable to read response body"@,
    }
}

/// The text of the body of a failure.
pub fn failure_text(body: &Option<String>) -> (res: String)
    ensures
        res@ == failure_chars(*body),
        *body matches Some(text) ==> res@ == text@,
        *body is None ==> res@ == "Unable to read response body"@,
{
    match body {
        Some(text) => text.clone(),
        None => "Unable to read response body".to_string(),
    }
}

/// The standard reason phrase of a status code, where it has one.
pub uninterp spec fn reason_chars(code: u16) -> Option<Seq<char>>;

/// A status code as `http::StatusCode` shows it: its number and its reason phrase.
pub open spec fn status_chars(code: u16) -> Seq<char> {
    decimal(code as nat) + " "@ + match reason_chars(code) {
        Some(reason) => reason,
        None => "<unknown status code>"@,
    }
}

/// What is said of a reply that is no success, given how its status is shown and the standard
/// reason phrase of the status.
pub open spec fn http_error_chars(
    status: Seq<char>,
    reason: Option<Seq<char>>,
    body: Seq<char>,
) -> Seq<char> {
    "HTTP error "@ + status + ": "@ + (match reason {
        Some(reason) => reason,
        None => "Unknown"@,
    }) + " - Response: "@ + body
}

/// Says what a reply that is no success was.
pub fn http_error_text(status: &str, reason: &Option<String>, body: &str) -> (res: String)
    ensures
        res@ == http_error_chars(status@, reason.deep_view(), body@),
        *reason matches Some(phrase) ==> res@ == "HTTP error "@ + status@ + ": "@ + phrase@
            + " - Response: "@ + body@,
        *reason is None ==> res@ == "HTTP error "@ + status@ + ": "@ + "Unknown"@
            + " - Response: "@ + body@,
{
    let mut res = "HTTP error ".to_string();
    res.append(status);
    res.append(": ");
    match reason {
        Some(reason) => {
            res.append(reason.as_str());
        },
        None => {
            res.append("Unknown");
        },
    }
    res.append(" - Response: ");
    res.append(body);
    res
}

/// Calls `canonical_reason` of `http::StatusCode`, which looks the code up in a table.
#[verifier::external_body]
pub(crate) fn canonical_reason(code: u16) -> (res: Option<String>)
    requires
        100 <= code <= 999,
    ensures
        res.deep_view() == reason_chars(code),
{
    StatusCode::from_u16(code).unwrap().canonical_reason().map(|reason| reason.to_string())
}

/// Calls `to_string` of `http::StatusCode`: the number, a space and the standard reason phrase,
/// or a fixed text where the code has none.
#[verifier::external_body]
pub(crate) fn status_text(code: u16) -> (res: String)
    requires
        100 <= code <= 999,
    ensures
        res@ == status_chars(code),
{
    StatusCode::from_u16(code).unwrap().to_string()
}

/// The body of a failure is shown as it is where it could be read; a reply is a success exactly
/// where its status begins with a two, and nothing was found exactly where it is 404.
pub proof fn lemma_replies_are_told_apart(code: u16, body: Option<String>)
    ensures
        class_of(code) is Success <==> 200 <= code <= 299,
        class_of(code) is NotFound <==> code == 404,
        body matches Some(text) ==> failure_chars(body) == text@,
        body is None ==> failure_chars(body) == "Unable to read response body"@,
{
}

} // verus!
