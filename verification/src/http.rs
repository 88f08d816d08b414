//! Messages about HTTP replies.

#[allow(unused_imports)]
use crate::text::decimal;
use crate::text::push_decimal;
use vstd::prelude::*;
use vstd::string::*;

verus! {

/// The reason phrase of a status code.
pub uninterp spec fn reason_phrase(code: u16) -> Seq<char>;

/// A status code as it is shown: the number and its reason phrase.
pub open spec fn status_line(code: u16) -> Seq<char> {
    decimal(code as nat) + " "@ + reason_phrase(code)
}

/// The text that `reqwest::StatusCode` displays: the number, a space and the
/// reason phrase, which the contract names.
#[verifier::external_body]
pub(crate) fn status_text(code: u16) -> (r: String)
    requires
        100 <= code <= 999,
    ensures
        r@ == decimal(code as nat) + " "@ + reason_phrase(code),
{
    reqwest::StatusCode::from_u16(code).unwrap().to_string()
}

/// A status code of success.
pub open spec fn is_success(code: u16) -> bool {
    200 <= code < 300
}

/// What an HTTP error status is reported as.
pub fn http_error(code: u16) -> (r: String)
    ensures
        r@ == "HTTP "@ + decimal(code as nat),
{
    let mut r = "HTTP ".to_owned();
    push_decimal(&mut r, code as u64);
    r
}

/// What a failure to get any reply is reported as.
pub fn transport_error(reason: &str) -> (r: String)
    ensures
        r@ == "transport: "@ + reason@,
{
    let mut r = "transport: ".to_owned();
    r.append(reason);
    r
}

/// Why a request got no usable reply.
pub enum HttpFailure {
    /// The server replied with an error status.
    Status(u16),
    /// There was no reply, for this reason.
    Transport(String),
}

impl HttpFailure {
    /// What the failure is reported as.
    pub open spec fn text(self) -> Seq<char> {
        match self {
            HttpFailure::Status(code) => "HTTP "@ + decimal(code as nat),
            HttpFailure::Transport(reason) => "transport: "@ + reason@,
        }
    }
}

/// What a failed request is reported as.
pub fn ureq_err(failure: HttpFailure) -> (r: String)
    ensures
        r@ == failure.text(),
{
    match failure {
        HttpFailure::Status(code) => http_error(code),
        HttpFailure::Transport(reason) => transport_error(reason.as_str()),
    }
}

/// A status is shown as its number, a space and its reason phrase.
pub proof fn status_shows_number_and_reason(code: u16)
    ensures
        status_line(code) == decimal(code as nat) + " "@ + reason_phrase(code),
{
}

/// The statuses of success are those from 200 to 299.
pub proof fn success_is_two_hundred(code: u16)
    ensures
        is_success(code) <==> 200 <= code <= 299,
{
}

/// A failure is reported with its status, or with its reason.
pub proof fn failures_are_told_apart(code: u16, reason: String)
    ensures
        HttpFailure::Status(code).text() == "HTTP "@ + decimal(code as nat),
        HttpFailure::Transport(reason).text() == "transport: "@ + reason@,
{
}

} // verus!
