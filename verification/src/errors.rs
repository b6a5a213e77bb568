//! The errors of the JSON API and how each one is answered.
use vstd::prelude::*;

verus! {

/// An error of the JSON API, with its message.
#[allow(non_camel_case_types)]
#[derive(Debug, PartialEq, Eq)]
pub enum ErrorResponse {
    REMOTE_SERVER_DIDNT_RESPOND(String),
    PARSER_FOR_THIS_RESOURCE_DOESNT_EXIST(String),
    UNABLE_TO_PARSE_RESPONSE_TEXT(String),
    REMOTE_SERVER_SENT_INVALID_DATA(String),
    AUTH_FAILED(String),
    BAD_REQUEST(String),
}

/// The mathematical value of an [`ErrorResponse`].
#[allow(non_camel_case_types)]
pub enum ErrorView {
    REMOTE_SERVER_DIDNT_RESPOND(Seq<char>),
    PARSER_FOR_THIS_RESOURCE_DOESNT_EXIST(Seq<char>),
    UNABLE_TO_PARSE_RESPONSE_TEXT(Seq<char>),
    REMOTE_SERVER_SENT_INVALID_DATA(Seq<char>),
    AUTH_FAILED(Seq<char>),
    BAD_REQUEST(Seq<char>),
}

impl DeepView for ErrorResponse {
    type V = ErrorView;

    open spec fn deep_view(&self) -> ErrorView {
        match self {
            ErrorResponse::REMOTE_SERVER_DIDNT_RESPOND(m) => ErrorView::REMOTE_SERVER_DIDNT_RESPOND(m@),
            ErrorResponse::PARSER_FOR_THIS_RESOURCE_DOESNT_EXIST(m) => ErrorView::PARSER_FOR_THIS_RESOURCE_DOESNT_EXIST(m@),
            ErrorResponse::UNABLE_TO_PARSE_RESPONSE_TEXT(m) => ErrorView::UNABLE_TO_PARSE_RESPONSE_TEXT(m@),
            ErrorResponse::REMOTE_SERVER_SENT_INVALID_DATA(m) => ErrorView::REMOTE_SERVER_SENT_INVALID_DATA(m@),
            ErrorResponse::AUTH_FAILED(m) => ErrorView::AUTH_FAILED(m@),
            ErrorResponse::BAD_REQUEST(m) => ErrorView::BAD_REQUEST(m@),
        }
    }
}

/// How an error is answered: the HTTP status, the error code and the message
/// of the JSON body `{"error": .., "msg": ..}`.
#[derive(Debug, PartialEq, Eq)]
pub struct ErrorResponseDetails {
    pub status_code: u16,
    pub error_code: String,
    pub msg: String,
}

/// The mathematical value of an [`ErrorResponseDetails`].
pub struct DetailsView {
    pub status_code: u16,
    pub error_code: Seq<char>,
    pub msg: Seq<char>,
}

impl DeepView for ErrorResponseDetails {
    type V = DetailsView;

    open spec fn deep_view(&self) -> DetailsView {
        DetailsView { status_code: self.status_code, error_code: self.error_code@, msg: self.msg@ }
    }
}

/// The status, code and message that answer `e`.
pub open spec fn details_of(e: ErrorView) -> DetailsView {
    match e {
        ErrorView::REMOTE_SERVER_DIDNT_RESPOND(m) => DetailsView { status_code: 500, error_code: "ERR-001"@, msg: m },
        ErrorView::UNABLE_TO_PARSE_RESPONSE_TEXT(m) => DetailsView { status_code: 500, error_code: "ERR-002"@, msg: m },
        ErrorView::REMOTE_SERVER_SENT_INVALID_DATA(m) => DetailsView { status_code: 500, error_code: "ERR-003"@, msg: m },
        ErrorView::AUTH_FAILED(m) => DetailsView { status_code: 401, error_code: "ERR-004"@, msg: m },
        ErrorView::BAD_REQUEST(m) => DetailsView { status_code: 400, error_code: "ERR-005"@, msg: m },
        ErrorView::PARSER_FOR_THIS_RESOURCE_DOESNT_EXIST(m) => DetailsView { status_code: 422, error_code: "ERR-006"@, msg: m },
    }
}

impl ErrorResponse {
    /// The status, error code and message this error is answered with.
    pub fn details(self) -> (d: ErrorResponseDetails)
        ensures
            d.deep_view() == details_of(self.deep_view()),
    {
        match self {
            ErrorResponse::REMOTE_SERVER_DIDNT_RESPOND(msg) =>
                ErrorResponseDetails { status_code: 500, error_code: "ERR-001".to_owned(), msg },
            ErrorResponse::UNABLE_TO_PARSE_RESPONSE_TEXT(msg) =>
                ErrorResponseDetails { status_code: 500, error_code: "ERR-002".to_owned(), msg },
            ErrorResponse::REMOTE_SERVER_SENT_INVALID_DATA(msg) =>
                ErrorResponseDetails { status_code: 500, error_code: "ERR-003".to_owned(), msg },
            ErrorResponse::AUTH_FAILED(msg) =>
                ErrorResponseDetails { status_code: 401, error_code: "ERR-004".to_owned(), msg },
            ErrorResponse::BAD_REQUEST(msg) =>
                ErrorResponseDetails { status_code: 400, error_code: "ERR-005".to_owned(), msg },
            ErrorResponse::PARSER_FOR_THIS_RESOURCE_DOESNT_EXIST(msg) =>
                ErrorResponseDetails { status_code: 422, error_code: "ERR-006".to_owned(), msg },
        }
    }
}

impl From<ErrorResponse> for ErrorResponseDetails {
    /// How `value` is answered (see [`ErrorResponse::details`]).
    fn from(value: ErrorResponse) -> (d: ErrorResponseDetails)
        ensures
            d.deep_view() == details_of(value.deep_view()),
    {
        value.details()
    }
}

impl vstd::std_specs::convert::FromSpecImpl<ErrorResponse> for ErrorResponseDetails {
    open spec fn obeys_from_spec() -> bool {
        false
    }

    open spec fn from_spec(v: ErrorResponse) -> ErrorResponseDetails {
        arbitrary()
    }
}

/// The error for an expired session, which pages answer by missing content.
pub fn session_expired() -> (e: ErrorResponse)
    ensures
        e.deep_view() == ErrorView::AUTH_FAILED("Session expired"@),
{
    ErrorResponse::AUTH_FAILED("Session expired".to_owned())
}

} // verus!
