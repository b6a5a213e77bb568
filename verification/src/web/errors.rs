//! The errors of the HTML front end, and how each one is answered: the
//! JSON details of `/api/..`, or an error page (a redirect to the login form
//! for a failed authorization).
use vstd::prelude::*;
use crate::text::copy_str;
use crate::web::html::{escape_html, escaped_html, url_encode, url_encoded};

verus! {

/// An error of the HTML front end, with its message.
#[allow(non_camel_case_types)]
#[derive(Debug, PartialEq, Eq)]
pub enum ErrorResponse {
    TEMPLATE_FILE_ERROR(String),
    REMOTE_SERVER_DIDNT_RESPOND(String),
    UNABLE_TO_PARSE_RESPONSE_TEXT(String),
    REMOTE_SERVER_SENT_INVALID_DATA(String),
    AUTH_FAILED(String),
    BAD_REQUEST(String),
}

/// The mathematical value of an [`ErrorResponse`].
#[allow(non_camel_case_types)]
pub enum ErrorView {
    TEMPLATE_FILE_ERROR(Seq<char>),
    REMOTE_SERVER_DIDNT_RESPOND(Seq<char>),
    UNABLE_TO_PARSE_RESPONSE_TEXT(Seq<char>),
    REMOTE_SERVER_SENT_INVALID_DATA(Seq<char>),
    AUTH_FAILED(Seq<char>),
    BAD_REQUEST(Seq<char>),
}

impl DeepView for ErrorResponse {
    type V = ErrorView;

    open spec fn deep_view(&self) -> ErrorView {
        match self {
            ErrorResponse::TEMPLATE_FILE_ERROR(m) => ErrorView::TEMPLATE_FILE_ERROR(m@),
            ErrorResponse::REMOTE_SERVER_DIDNT_RESPOND(m) => ErrorView::REMOTE_SERVER_DIDNT_RESPOND(m@),
            ErrorResponse::UNABLE_TO_PARSE_RESPONSE_TEXT(m) => ErrorView::UNABLE_TO_PARSE_RESPONSE_TEXT(m@),
            ErrorResponse::REMOTE_SERVER_SENT_INVALID_DATA(m) => ErrorView::REMOTE_SERVER_SENT_INVALID_DATA(m@),
            ErrorResponse::AUTH_FAILED(m) => ErrorView::AUTH_FAILED(m@),
            ErrorResponse::BAD_REQUEST(m) => ErrorView::BAD_REQUEST(m@),
        }
    }
}

/// How an error is answered: the HTTP status, the error code and the message.
#[derive(Debug, PartialEq, Eq)]
pub struct ErrorResponseDetails {
    pub status_code: u16,
    pub error_code: String,
    pub msg: String,
}

/// The mathematical value of an [`ErrorResponseDetails`].
pub struct DetailsView {
    pub status_code: u16,
    pub error_code: Seq<char>,
    pub msg: Seq<char>,
}

impl DeepView for ErrorResponseDetails {
    type V = DetailsView;

    open spec fn deep_view(&self) -> DetailsView {
        DetailsView { status_code: self.status_code, error_code: self.error_code@, msg: self.msg@ }
    }
}

/// The status, code and message that answer `e`.
pub open spec fn details_of(e: ErrorView) -> DetailsView {
    match e {
        ErrorView::TEMPLATE_FILE_ERROR(m) => DetailsView { status_code: 404, error_code: "ERR-000"@, msg: m },
        ErrorView::REMOTE_SERVER_DIDNT_RESPOND(m) => DetailsView { status_code: 500, error_code: "ERR-001"@, msg: m },
        ErrorView::UNABLE_TO_PARSE_RESPONSE_TEXT(m) => DetailsView { status_code: 500, error_code: "ERR-002"@, msg: m },
        ErrorView::REMOTE_SERVER_SENT_INVALID_DATA(m) => DetailsView { status_code: 500, error_code: "ERR-003"@, msg: m },
        ErrorView::AUTH_FAILED(m) => DetailsView { status_code: 401, error_code: "ERR-004"@, msg: m },
        ErrorView::BAD_REQUEST(m) => DetailsView { status_code: 400, error_code: "ERR-005"@, msg: m },
    }
}

/// How the HTML front end answers an error: a redirect, or a page with a
/// status.
#[derive(Debug, PartialEq, Eq)]
pub enum ErrorPage {
    Redirect(String),
    Page { status_code: u16, html: String },
}

/// The mathematical value of an [`ErrorPage`].
pub enum ErrorPageView {
    Redirect(Seq<char>),
    Page { status_code: u16, html: Seq<char> },
}

impl DeepView for ErrorPage {
    type V = ErrorPageView;

    open spec fn deep_view(&self) -> ErrorPageView {
        match self {
            ErrorPage::Redirect(to) => ErrorPageView::Redirect(to@),
            ErrorPage::Page { status_code, html } => ErrorPageView::Page { status_code: *status_code, html: html@ },
        }
    }
}

/// The page an error is shown on: its code and its message, escaped.
pub open spec fn error_html(code: Seq<char>, msg: Seq<char>) -> Seq<char> {
    "\n            <h1>Error</h1><br/>\n            <a href=\"/\">go back to login</a><br/>\n            <p>"@
        + escaped_html(code) + "</p> <br /> \n            <p>"@ + escaped_html(msg) + "</p>"@
}

/// How the HTML front end answers `e`: a failed authorization goes back to
/// the login form with the message in `?invalid=`, any other error is a page
/// with its status.
pub open spec fn error_page_of(e: ErrorView) -> ErrorPageView {
    let d = details_of(e);
    if d.status_code == 401 {
        ErrorPageView::Redirect("/?invalid="@ + url_encoded(d.msg))
    } else {
        ErrorPageView::Page { status_code: d.status_code, html: error_html(d.error_code, d.msg) }
    }
}

impl ErrorResponse {
    /// The status, error code and message this error is answered with.
    pub fn into_error_response_details(&self) -> (d: ErrorResponseDetails)
        ensures
            d.deep_view() == details_of(self.deep_view()),
    {
        match self {
            ErrorResponse::TEMPLATE_FILE_ERROR(msg) =>
                ErrorResponseDetails { status_code: 404, error_code: "ERR-000".to_owned(), msg: msg.clone() },
            ErrorResponse::REMOTE_SERVER_DIDNT_RESPOND(msg) =>
                ErrorResponseDetails { status_code: 500, error_code: "ERR-001".to_owned(), msg: msg.clone() },
            ErrorResponse::UNABLE_TO_PARSE_RESPONSE_TEXT(msg) =>
                ErrorResponseDetails { status_code: 500, error_code: "ERR-002".to_owned(), msg: msg.clone() },
            ErrorResponse::REMOTE_SERVER_SENT_INVALID_DATA(msg) =>
                ErrorResponseDetails { status_code: 500, error_code: "ERR-003".to_owned(), msg: msg.clone() },
            ErrorResponse::AUTH_FAILED(msg) =>
                ErrorResponseDetails { status_code: 401, error_code: "ERR-004".to_owned(), msg: msg.clone() },
            ErrorResponse::BAD_REQUEST(msg) =>
                ErrorResponseDetails { status_code: 400, error_code: "ERR-005".to_owned(), msg: msg.clone() },
        }
    }

    /// How the HTML front end answers this error (see [`error_page_of`]).
    pub fn error_page(&self) -> (p: ErrorPage)
        ensures
            p.deep_view() == error_page_of(self.deep_view()),
    {
        let details = self.into_error_response_details();
        if details.status_code == 401 {
            let mut to = copy_str("/?invalid=");
            let encoded = url_encode(details.msg.as_str());
            to.append(encoded.as_str());
            return ErrorPage::Redirect(to);
        }
        let mut html = copy_str(
            "\n            <h1>Error</h1><br/>\n            <a href=\"/\">go back to login</a><br/>\n            <p>",
        );
        let code = escape_html(details.error_code.as_str());
        html.append(code.as_str());
        html.append("</p> <br /> \n            <p>");
        let msg = escape_html(details.msg.as_str());
        html.append(msg.as_str());
        html.append("</p>");
        ErrorPage::Page { status_code: details.status_code, html }
    }
}

} // verus!
