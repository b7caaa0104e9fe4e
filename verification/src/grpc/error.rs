//! Answers to requests that cannot be served.

use vstd::prelude::*;

verus! {

/// An error answer: its status, a code for programs and a message for people.
pub struct ErrorAnswer {
    pub status: u16,
    pub code: String,
    pub message: String,
}

/// What an [`ErrorAnswer`] says.
pub struct ErrorText {
    pub status: int,
    pub code: Seq<char>,
    pub message: Seq<char>,
}

impl View for ErrorAnswer {
    type V = ErrorText;

    open spec fn view(&self) -> ErrorText {
        ErrorText { status: self.status as int, code: self.code@, message: self.message@ }
    }
}

/// An error of the client.
pub open spec fn bad_request_text(code: Seq<char>, message: Seq<char>) -> ErrorText {
    ErrorText { status: 400, code, message }
}

/// An error of the gateway.
pub open spec fn internal_error_text(code: Seq<char>, message: Seq<char>) -> ErrorText {
    ErrorText { status: 500, code, message }
}

pub fn bad_request(code: &str, message: &str) -> (r: ErrorAnswer)
    ensures
        r@ == bad_request_text(code@, message@),
{
    ErrorAnswer { status: 400, code: code.to_owned(), message: message.to_owned() }
}

pub fn internal_error(code: &str, message: &str) -> (r: ErrorAnswer)
    ensures
        r@ == internal_error_text(code@, message@),
{
    ErrorAnswer { status: 500, code: code.to_owned(), message: message.to_owned() }
}

pub fn service_unavailable(code: &str, message: &str) -> (r: ErrorAnswer)
    ensures
        r@ == (ErrorText { status: 503, code: code@, message: message@ }),
{
    ErrorAnswer { status: 503, code: code.to_owned(), message: message.to_owned() }
}

/// Errors of the client, of the gateway and of what is behind it are told apart by
/// their statuses, and keep their code and message.
pub proof fn errors_are_told_apart(
    code: &str,
    message: &str,
    client: ErrorAnswer,
    gateway: ErrorAnswer,
    behind: ErrorAnswer,
)
    requires
        call_ensures(bad_request, (code, message), client),
        call_ensures(internal_error, (code, message), gateway),
        call_ensures(service_unavailable, (code, message), behind),
    ensures
        client.status == 400,
        gateway.status == 500,
        behind.status == 503,
        client.code@ == code@ && gateway.code@ == code@ && behind.code@ == code@,
        client.message@ == message@ && gateway.message@ == message@ && behind.message@ == message@,
{
    assert(client@.status == client.status);
    assert(gateway@.status == gateway.status);
    assert(behind@.status == behind.status);
    assert(client@.code == client.code@);
    assert(client@.message == client.message@);
}

} // verus!
