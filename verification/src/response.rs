//! Answers to requests.

use crate::json::{
    field, member, text, write_json, FieldView, JsonBody, JsonField, JsonRecord, JsonScalar,
    ScalarView,
};
use vstd::prelude::*;

verus! {

/// HTTP status codes of answers.
pub const OK: u16 = 200;

pub const BAD_REQUEST: u16 = 400;

pub const UNAUTHORIZED: u16 = 401;

pub const NOT_FOUND: u16 = 404;

pub const METHOD_NOT_ALLOWED: u16 = 405;

pub const CONFLICT: u16 = 409;

pub const PAYLOAD_TOO_LARGE: u16 = 413;

pub const INTERNAL_SERVER_ERROR: u16 = 500;

pub const BAD_GATEWAY: u16 = 502;

pub const SERVICE_UNAVAILABLE: u16 = 503;

/// An answer: its HTTP status and the members of its JSON body.
#[derive(Debug, Clone, PartialEq, Eq)]
pub struct Reply {
    pub status: u16,
    pub body: JsonBody,
}

/// An answer, its texts as characters.
pub struct ReplyView {
    pub status: u16,
    pub body: Seq<(Seq<char>, FieldView)>,
}

impl View for Reply {
    type V = ReplyView;

    open spec fn view(&self) -> ReplyView {
        ReplyView { status: self.status, body: self.body@ }
    }
}

/// An answer as it goes out.
#[derive(Debug, Clone, PartialEq, Eq)]
pub struct HttpResponse {
    pub status: u16,
    pub content_type: String,
    pub body: String,
}

/// The answer for a failure: a code for programs and a message for people.
pub open spec fn error_reply(status: u16, code: Seq<char>, message: Seq<char>) -> ReplyView {
    ReplyView {
        status,
        body: seq![
            (
                "success"@,
                FieldView::Scalar(ScalarView::Bool(false)),
            ),
            (
                "error"@,
                FieldView::Record(
                    seq![
                        ("code"@, ScalarView::Text(code)),
                        ("message"@, ScalarView::Text(message)),
                    ],
                ),
            ),
        ],
    }
}

/// The answer to every request while contract management is off.
pub open spec fn disabled_reply() -> ReplyView {
    error_reply(NOT_FOUND, "not_found"@, "contract management is not enabled"@)
}

/// Answers with a failure.
pub fn error_response(status: u16, code: &str, message: &str) -> (reply: Reply)
    ensures
        reply@ == error_reply(status, code@, message@),
{
    let error = JsonRecord {
        members: vec![member("code", text(code)), member("message", text(message))],
    };
    assert(error@ =~= seq![
        ("code"@, ScalarView::Text(code@)),
        ("message"@, ScalarView::Text(message@)),
    ]);
    let body = JsonBody {
        members: vec![
            field("success", JsonField::Scalar(JsonScalar::Bool(false))),
            field("error", JsonField::Record(error)),
        ],
    };
    assert(body@ =~= error_reply(status, code@, message@).body);
    Reply { status, body }
}

/// Answers that contract management is off.
pub fn disabled_response() -> (reply: Reply)
    ensures
        reply@ == disabled_reply(),
{
    error_response(NOT_FOUND, "not_found", "contract management is not enabled")
}

/// Writes an answer out: its body as JSON text, labelled as such.
pub fn json_response(status: u16, body: JsonBody) -> (response: HttpResponse)
    ensures
        response.status == status,
        response.content_type@ == "application/json"@,
        response.body@ == crate::json::json_text(body@),
{
    HttpResponse {
        status,
        content_type: "application/json".to_owned(),
        body: write_json(body),
    }
}

/// The status codes are those of HTTP.
pub proof fn law_status_codes_are_those_of_http()
    ensures
        OK == 200,
        BAD_REQUEST == 400,
        UNAUTHORIZED == 401,
        NOT_FOUND == 404,
        METHOD_NOT_ALLOWED == 405,
        CONFLICT == 409,
        PAYLOAD_TOO_LARGE == 413,
        INTERNAL_SERVER_ERROR == 500,
        BAD_GATEWAY == 502,
        SERVICE_UNAVAILABLE == 503,
{
}

/// The view of an answer has its status and its body.
pub proof fn law_reply_view_keeps_everything(reply: Reply)
    ensures
        reply@.status == reply.status,
        reply@.body == reply.body@,
{
}

/// The answer for a failure has the status that it is made with, and two
/// members: that there was no success, and an error with its code and its
/// message, and nothing else.
pub proof fn law_failure_tells_code_and_message(status: u16, code: Seq<char>, message: Seq<char>)
    ensures
        error_reply(status, code, message).status == status,
        error_reply(status, code, message).body.len() == 2,
        error_reply(status, code, message).body.contains(
            ("success"@, FieldView::Scalar(ScalarView::Bool(false))),
        ),
        exists|error: Seq<(Seq<char>, ScalarView)>|
            {
                &&& #[trigger] error_reply(status, code, message).body.contains(
                    ("error"@, FieldView::Record(error)),
                )
                &&& error.len() == 2
                &&& error.contains(("code"@, ScalarView::Text(code)))
                &&& error.contains(("message"@, ScalarView::Text(message)))
            },
{
    let body = error_reply(status, code, message).body;
    assert(body[0] == ("success"@, FieldView::Scalar(ScalarView::Bool(false))));
    let error = body[1].1->Record_0;
    assert(body[1] == ("error"@, FieldView::Record(error)));
    assert(error[0] == ("code"@, ScalarView::Text(code)));
    assert(error[1] == ("message"@, ScalarView::Text(message)));
    assert(error_reply(status, code, message).body.contains(("error"@, FieldView::Record(error))));
}

/// Answers for different failures differ.
pub proof fn law_failures_can_be_told_apart(
    status: u16,
    code: Seq<char>,
    message: Seq<char>,
    other_status: u16,
    other_code: Seq<char>,
    other_message: Seq<char>,
)
    requires
        error_reply(status, code, message) == error_reply(other_status, other_code, other_message),
    ensures
        status == other_status,
        code == other_code,
        message == other_message,
{
    let body = error_reply(status, code, message).body;
    let other = error_reply(other_status, other_code, other_message).body;
    assert(body[1] == other[1]);
    let error = body[1].1->Record_0;
    assert(error[0].1 == ScalarView::Text(code));
    assert(error[1].1 == ScalarView::Text(message));
    let other_error = other[1].1->Record_0;
    assert(other_error[0].1 == ScalarView::Text(other_code));
    assert(other_error[1].1 == ScalarView::Text(other_message));
}

/// While contract management is off, requests are answered that it is not there.
pub proof fn law_disabled_management_is_not_found()
    ensures
        disabled_reply() == error_reply(
            404,
            "not_found"@,
            "contract management is not enabled"@,
        ),
{
}

/// A failure is answered with the status, the code and the message that it is
/// given; that management is off, like a path that is not there; and an answer is
/// written out with its own status, as JSON of its own members.
pub proof fn law_answers_are_what_they_are_made_of(
    status: u16,
    code: &str,
    message: &str,
    body: JsonBody,
)
    ensures
        forall|reply: Reply| #[trigger]
            call_ensures(error_response, (status, code, message), reply) ==> reply.status == status
                && reply.body@ == error_reply(status, code@, message@).body,
        forall|reply: Reply| #[trigger]
            call_ensures(disabled_response, (), reply) ==> reply@ == error_reply(
                404,
                "not_found"@,
                "contract management is not enabled"@,
            ),
        forall|response: HttpResponse| #[trigger]
            call_ensures(json_response, (status, body), response) ==> {
                &&& response.status == status
                &&& response.content_type@ == "application/json"@
                &&& response.body@ == crate::json::json_text(body@)
            },
{
}

} // verus!
