//! The envelope type and its transport-level responses.
//!
//! Every constructor returns a complete response — status line, content type
//! and body — ready to hand to the serving layer. A serialization fault never
//! escapes: it is absorbed into a plain-text fallback response.

use vstd::prelude::*;
use vstd::string::StringExecFns;
use crate::json::envelope_body;
use crate::json::opt_view;
use crate::json::render_body;

verus! {

/// The content type of a produced response.
#[derive(Clone, Copy, PartialEq, Eq, Structural, Debug)]
pub enum ContentType {
    ApplicationJsonUtf8,
    TextPlainUtf8,
}

impl ContentType {
    /// The header value this content type stands for.
    pub fn header_value(&self) -> (r: &'static str)
        ensures
            *self is ApplicationJsonUtf8 ==> r@ == "application/json; charset=utf-8"@,
            *self is TextPlainUtf8 ==> r@ == "text/plain; charset=utf-8"@,
    {
        match self {
            ContentType::ApplicationJsonUtf8 => "application/json; charset=utf-8",
            ContentType::TextPlainUtf8 => "text/plain; charset=utf-8",
        }
    }
}

/// A transport-level response: status line, content type and body, ready for
/// the serving layer.
pub struct HttpResponse {
    pub status: u16,
    pub content_type: ContentType,
    pub body: String,
}

/// The mathematical model of a response: status, content type and body text.
pub open spec fn response_model(r: HttpResponse) -> (u16, ContentType, Seq<char>) {
    (r.status, r.content_type, r.body@)
}

/// The view of an optional owned string.
pub open spec fn opt_string_view(s: Option<String>) -> Option<Seq<char>> {
    match s {
        Option::Some(x) => Option::Some(x@),
        Option::None => Option::None,
    }
}

/// The view of an optional serialization outcome.
pub open spec fn outcome_view(d: Option<Result<String, String>>) -> Option<
    Result<Seq<char>, Seq<char>>,
> {
    match d {
        Option::None => Option::None,
        Option::Some(Result::Ok(s)) => Option::Some(Result::Ok(s@)),
        Option::Some(Result::Err(e)) => Option::Some(Result::Err(e@)),
    }
}

/// The body of the plain-text fallback: the serialization error's own
/// description, or a fixed line where that description is empty.
pub open spec fn fallback_body(e: Seq<char>) -> Seq<char> {
    if e.len() == 0 {
        "serialization failed"@
    } else {
        e
    }
}

/// What a response build yields. A serialization fault gives the plain-text
/// fallback under HTTP 500, whatever status was intended; otherwise the JSON
/// envelope body stands under the chosen status.
pub open spec fn spec_render(
    status: u16,
    code: int,
    data: Option<Result<Seq<char>, Seq<char>>>,
    msg: Option<Seq<char>>,
) -> (u16, ContentType, Seq<char>) {
    match data {
        Option::Some(Result::Err(e)) => (500u16, ContentType::TextPlainUtf8, fallback_body(e)),
        Option::Some(Result::Ok(d)) => (
            status,
            ContentType::ApplicationJsonUtf8,
            envelope_body(code, Option::Some(d), msg),
        ),
        Option::None => (
            status,
            ContentType::ApplicationJsonUtf8,
            envelope_body(code, Option::None, msg),
        ),
    }
}

/// Builds the response for a serialization outcome: `data` is `None` when the
/// envelope carries no payload, `Some(Ok(text))` when the payload serialized
/// to `text`, and `Some(Err(e))` when serialization failed with description
/// `e`.
pub fn render_response(
    status: u16,
    code: i32,
    data: Option<Result<String, String>>,
    msg: Option<String>,
) -> (r: HttpResponse)
    ensures
        response_model(r) == spec_render(status, code as int, outcome_view(data), opt_string_view(msg)),
{
    match data {
        Option::None => {
            let m = msg.as_ref();
            let body = render_body(code, Option::None, m);
            proof {
                assert(opt_view(m) == opt_string_view(msg));
            }
            HttpResponse { status, content_type: ContentType::ApplicationJsonUtf8, body }
        },
        Option::Some(Result::Ok(d)) => {
            let m = msg.as_ref();
            let body = render_body(code, Option::Some(&d), m);
            proof {
                assert(opt_view(m) == opt_string_view(msg));
            }
            HttpResponse { status, content_type: ContentType::ApplicationJsonUtf8, body }
        },
        Option::Some(Result::Err(e)) => {
            let body = if e.as_str().is_empty() {
                String::from_str("serialization failed")
            } else {
                e
            };
            HttpResponse { status: 500, content_type: ContentType::TextPlainUtf8, body }
        },
    }
}

/// Building a response twice from the same inputs yields the same status,
/// the same content type and a byte-identical body.
pub proof fn lemma_render_deterministic(
    r1: HttpResponse,
    r2: HttpResponse,
    status: u16,
    code: int,
    data: Option<Result<Seq<char>, Seq<char>>>,
    msg: Option<Seq<char>>,
)
    requires
        response_model(r1) == spec_render(status, code, data, msg),
        response_model(r2) == spec_render(status, code, data, msg),
    ensures
        r1.status == r2.status,
        r1.content_type == r2.content_type,
        r1.body@ == r2.body@,
{
}

/// Relies on serde_json::to_string: it renders a serde-serializable value as
/// JSON text, and fails when the value cannot be represented (for instance a
/// map whose keys are not strings, or a failing Serialize implementation).
/// On failure the error's own description is returned.
#[verifier::external_body]
fn to_json<T: serde::Serialize>(value: &T) -> Result<String, String> {
    match serde_json::to_string(value) {
        Ok(s) => Ok(s),
        Err(e) => Err(e.to_string()),
    }
}

/// The envelope itself: an application result code, an optional payload and
/// an optional message. Constructors pair `code` with the HTTP status; the
/// type alone does not forbid mixed states.
#[derive(Debug)]
pub struct ResResult<T> {
    pub code: i32,
    pub data: Option<T>,
    pub msg: Option<String>,
}

impl<T> Default for ResResult<T> {
    /// The empty envelope: code zero, no payload, no message.
    fn default() -> (r: Self)
        ensures
            r.code == 0,
            r.data is None,
            r.msg is None,
    {
        ResResult { code: 0, data: Option::None, msg: Option::None }
    }
}

impl<T: serde::Serialize> ResResult<T> {
    /// Renders the envelope under the given HTTP status. The payload, when
    /// present, is serialized by serde; whatever that serialization yields,
    /// the result is the response `spec_render` assigns to that outcome.
    pub fn into_response(self, status: u16) -> (r: HttpResponse)
        ensures
            self.data is None ==> response_model(r) == spec_render(
                status,
                self.code as int,
                Option::None,
                opt_string_view(self.msg),
            ),
            self.data is Some ==> exists|out: Result<Seq<char>, Seq<char>>|
                response_model(r) == spec_render(
                    status,
                    self.code as int,
                    Option::Some(out),
                    opt_string_view(self.msg),
                ),
            r.content_type == ContentType::ApplicationJsonUtf8 ==> r.status == status,
            r.content_type == ContentType::TextPlainUtf8 ==> r.status == 500 && r.body@.len() > 0,
    {
        let ghost msg_view = opt_string_view(self.msg);
        let ghost had_data = self.data is Some;
        let ser: Option<Result<String, String>> = match self.data {
            Option::Some(d) => Option::Some(to_json(&d)),
            Option::None => Option::None,
        };
        let ghost out_view = outcome_view(ser);
        let r = render_response(status, self.code, ser, self.msg);
        proof {
            reveal_strlit("serialization failed");
            if had_data {
                match out_view {
                    Option::Some(out) => {
                        assert(response_model(r) == spec_render(
                            status,
                            self.code as int,
                            Option::Some(out),
                            msg_view,
                        ));
                    },
                    Option::None => {},
                }
            }
        }
        r
    }

    /// The success response: code 200, the payload, message "success", HTTP
    /// status 200 and the JSON content type — or the plain-text fallback if
    /// the payload would not serialize.
    pub fn with_success(data: T) -> (r: HttpResponse)
        ensures
            exists|out: Result<Seq<char>, Seq<char>>|
                response_model(r) == spec_render(
                    200u16,
                    200,
                    Option::Some(out),
                    Option::Some("success"@),
                ),
            r.content_type == ContentType::ApplicationJsonUtf8 ==> r.status == 200,
            r.content_type == ContentType::TextPlainUtf8 ==> r.status == 500 && r.body@.len() > 0,
    {
        let e = ResResult {
            code: 200,
            data: Option::Some(data),
            msg: Option::Some(String::from_str("success")),
        };
        e.into_response(200)
    }

    /// As `with_success`, but with a caller-supplied message in place of the
    /// fixed "success".
    pub fn with_success_msg(data: T, msg: &str) -> (r: HttpResponse)
        ensures
            exists|out: Result<Seq<char>, Seq<char>>|
                response_model(r) == spec_render(
                    200u16,
                    200,
                    Option::Some(out),
                    Option::Some(msg@),
                ),
            r.content_type == ContentType::ApplicationJsonUtf8 ==> r.status == 200,
            r.content_type == ContentType::TextPlainUtf8 ==> r.status == 500 && r.body@.len() > 0,
    {
        let e = ResResult {
            code: 200,
            data: Option::Some(data),
            msg: Option::Some(String::from_str(msg)),
        };
        e.into_response(200)
    }

    /// The generic error response: code 500, no payload, the given message,
    /// HTTP status 500 and the JSON content type.
    pub fn with_error(err: &str) -> (r: HttpResponse)
        ensures
            response_model(r) == spec_render(500u16, 500, Option::None, Option::Some(err@)),
            r.status == 500,
            r.content_type == ContentType::ApplicationJsonUtf8,
            r.body@ == envelope_body(500, Option::None, Option::Some(err@)),
    {
        let e = ResResult::<T> {
            code: 500,
            data: Option::None,
            msg: Option::Some(String::from_str(err)),
        };
        e.into_response(500)
    }

    /// The parameterized error response: a caller-supplied application code
    /// and an independent HTTP status, no payload, the given message, the
    /// JSON content type.
    pub fn with_error_code(err: &str, code: i32, status_code: u16) -> (r: HttpResponse)
        ensures
            response_model(r) == spec_render(
                status_code,
                code as int,
                Option::None,
                Option::Some(err@),
            ),
            r.status == status_code,
            r.content_type == ContentType::ApplicationJsonUtf8,
            r.body@ == envelope_body(code as int, Option::None, Option::Some(err@)),
    {
        let e = ResResult::<T> {
            code,
            data: Option::None,
            msg: Option::Some(String::from_str(err)),
        };
        e.into_response(status_code)
    }
}

/// A serialization fault always yields HTTP 500, the plain-text content type
/// and a non-empty body, whatever status and envelope were intended.
pub proof fn lemma_fallback_wellformed(
    status: u16,
    code: int,
    e: Seq<char>,
    msg: Option<Seq<char>>,
)
    ensures
        ({
            let (s, ct, b) = spec_render(status, code, Option::Some(Result::Err(e)), msg);
            s == 500 && ct == ContentType::TextPlainUtf8 && b.len() > 0
        }),
{
    reveal_strlit("serialization failed");
}

} // verus!

