//! What a request can fail with, and the response that reports it.

use crate::address::ValidationError;
use crate::table::TableError;
use vstd::prelude::*;

verus! {

/// The status of a request that was carried out.
pub const STATUS_OK: u16 = 200;

/// The status of a request whose address is malformed.
pub const STATUS_BAD_REQUEST: u16 = 400;

/// The status of a request that the table could not carry out.
pub const STATUS_INTERNAL_SERVER_ERROR: u16 = 500;

/// The failures that a caller of the interface can see. A failure of
/// the table is reported without its cause.
#[derive(Clone, Copy, Debug, PartialEq, Eq, Structural)]
pub enum ApiError {
    /// The table could not carry out the request.
    InternalServerError,
    /// The request names no valid IPv4 address.
    BadRequest,
}

/// A response as plain values: the status code and the body's text.
#[derive(Clone, Debug)]
pub struct HttpResponse {
    pub status: u16,
    pub body: String,
}

/// `serde_json::Error`, the error of a rendering that failed. It is
/// carried through as it comes; nothing is read from it.
#[verifier::external_type_specification]
#[verifier::external_body]
pub struct ExJsonError(serde_json::Error);

/// Whether a JSON string shows `c` as an escape sequence: the quote,
/// the backslash and the control characters below the space.
pub open spec fn needs_escape(c: char) -> bool {
    c == '"' || c == '\\' || (c as u32) < 0x20
}

/// Whether a JSON string shows `text` as it stands, between quotes.
pub open spec fn is_plain(text: Seq<char>) -> bool {
    forall|i: int| 0 <= i < text.len() ==> !needs_escape(#[trigger] text[i])
}

/// The compact JSON text of the object with the one member `field`,
/// whose value is the string `text`, both plain.
pub open spec fn plain_object(field: Seq<char>, text: Seq<char>) -> Seq<char> {
    seq!['{', '"'] + field + seq!['"', ':', '"'] + text + seq!['"', '}']
}

/// Calls `serde_json::to_string` on the object with the single member
/// `field`, a string holding `text`, both plain. A text that comes
/// back is the compact form: the braces, each string between quotes
/// with its characters as they stand, and the colon between the two.
#[verifier::external_body]
fn render_object(field: &str, text: &str) -> (r: Result<String, serde_json::Error>)
    requires
        is_plain(field@),
        is_plain(text@),
    ensures
        r is Ok ==> r->Ok_0@ == plain_object(field@, text@),
{
    let mut object = serde_json::Map::new();
    object.insert(field.to_string(), serde_json::Value::String(text.to_string()));
    serde_json::to_string(&serde_json::Value::Object(object))
}

/// The message that stands in the body of a failed request.
pub open spec fn message_text(error: ApiError) -> Seq<char> {
    match error {
        ApiError::InternalServerError => "An internal server error occured."@,
        ApiError::BadRequest => "The address is not a valid IPv4 address."@,
    }
}

/// The status code that reports `error`.
pub open spec fn status_of(error: ApiError) -> u16 {
    match error {
        ApiError::InternalServerError => STATUS_INTERNAL_SERVER_ERROR,
        ApiError::BadRequest => STATUS_BAD_REQUEST,
    }
}

/// The body that reports `error`: the JSON object whose one member,
/// `error`, holds the message.
pub open spec fn error_body(error: ApiError) -> Seq<char> {
    plain_object("error"@, message_text(error))
}

/// The member name and the messages hold no character that JSON
/// escapes.
pub proof fn lemma_messages_are_plain(error: ApiError)
    ensures
        is_plain("error"@),
        is_plain(message_text(error)),
{
    reveal_strlit("error");
    reveal_strlit("An internal server error occured.");
    reveal_strlit("The address is not a valid IPv4 address.");
}

/// The two bodies, letter for letter.
pub proof fn lemma_error_body_text()
    ensures
        forall|error: ApiError| #[trigger] error_body(error).len() > 0,
        error_body(ApiError::InternalServerError)
            == "{\"error\":\"An internal server error occured.\"}"@,
        error_body(ApiError::BadRequest)
            == "{\"error\":\"The address is not a valid IPv4 address.\"}"@,
{
    reveal_strlit("error");
    reveal_strlit("An internal server error occured.");
    reveal_strlit("The address is not a valid IPv4 address.");
    reveal_strlit("{\"error\":\"An internal server error occured.\"}");
    reveal_strlit("{\"error\":\"The address is not a valid IPv4 address.\"}");
    assert(error_body(ApiError::InternalServerError)
        =~= "{\"error\":\"An internal server error occured.\"}"@);
    assert(error_body(ApiError::BadRequest)
        =~= "{\"error\":\"The address is not a valid IPv4 address.\"}"@);
}

impl HttpResponse {
    /// The response to a request that was carried out: no body.
    pub fn success() -> (response: HttpResponse)
        ensures
            response.status == STATUS_OK,
            response.body@ == Seq::<char>::empty(),
    {
        HttpResponse { status: STATUS_OK, body: String::new() }
    }

    /// The response with `status` and the rendered body; where the body
    /// could not be rendered, `fallback` stands in its place.
    pub fn failure(
        status: u16,
        rendered: Result<String, serde_json::Error>,
        fallback: &str,
    ) -> (response: HttpResponse)
        ensures
            response.status == status,
            response.body@ == match rendered {
                Ok(body) => body@,
                Err(_) => fallback@,
            },
    {
        match rendered {
            Ok(body) => HttpResponse { status, body },
            Err(_) => HttpResponse { status, body: fallback.to_owned() },
        }
    }
}

impl ApiError {
    /// The failure that reports a table error: always the same, so that
    /// no detail of the table reaches the caller.
    pub fn from_table(error: TableError) -> (api: ApiError)
        ensures
            api == ApiError::InternalServerError,
    {
        ApiError::InternalServerError
    }

    /// The failure that reports a malformed address.
    pub fn from_validation(error: ValidationError) -> (api: ApiError)
        ensures
            api == ApiError::BadRequest,
    {
        ApiError::BadRequest
    }

    /// The status code that reports this failure.
    pub fn status(&self) -> (code: u16)
        ensures
            code == status_of(*self),
    {
        match self {
            ApiError::InternalServerError => STATUS_INTERNAL_SERVER_ERROR,
            ApiError::BadRequest => STATUS_BAD_REQUEST,
        }
    }

    /// The message of this failure.
    pub fn message(&self) -> (text: &'static str)
        ensures
            text@ == message_text(*self),
    {
        match self {
            ApiError::InternalServerError => "An internal server error occured.",
            ApiError::BadRequest => "The address is not a valid IPv4 address.",
        }
    }

    /// The body that reports this failure, kept ready for a rendering
    /// that fails.
    pub fn ready_body(&self) -> (text: &'static str)
        ensures
            text@ == error_body(*self),
    {
        proof {
            lemma_error_body_text();
        }
        match self {
            ApiError::InternalServerError => "{\"error\":\"An internal server error occured.\"}",
            ApiError::BadRequest => "{\"error\":\"The address is not a valid IPv4 address.\"}",
        }
    }

    /// The response that reports this failure: its status code, and as
    /// body the JSON object whose one member, `error`, holds the
    /// message. The body is rendered; should the rendering fail, the same
    /// text is taken from `ready_body`.
    pub fn into_response(self) -> (response: HttpResponse)
        ensures
            response.status == status_of(self),
            response.body@ == error_body(self),
    {
        proof {
            lemma_messages_are_plain(self);
        }
        let rendered = render_object("error", self.message());
        HttpResponse::failure(self.status(), rendered, self.ready_body())
    }
}

/// The response to a request with this result.
pub fn respond(result: Result<(), ApiError>) -> (response: HttpResponse)
    ensures
        match result {
            Ok(_) => response.status == STATUS_OK && response.body@ == Seq::<char>::empty(),
            Err(error) => response.status == status_of(error) && response.body@ == error_body(
                error,
            ),
        },
{
    match result {
        Ok(_) => HttpResponse::success(),
        Err(error) => error.into_response(),
    }
}

} // verus!
