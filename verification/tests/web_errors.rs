use ekursy_api::web::errors::{ErrorPage, ErrorResponse, ErrorResponseDetails};
use ekursy_api::web::html::escape_html;

fn details(status_code: u16, code: &str, msg: &str) -> ErrorResponseDetails {
    ErrorResponseDetails { status_code, error_code: code.to_string(), msg: msg.to_string() }
}

#[test]
fn each_error_has_its_status_and_code() {
    let m = || "m".to_string();
    assert_eq!(ErrorResponse::TEMPLATE_FILE_ERROR(m()).into_error_response_details(), details(404, "ERR-000", "m"));
    assert_eq!(ErrorResponse::REMOTE_SERVER_DIDNT_RESPOND(m()).into_error_response_details(), details(500, "ERR-001", "m"));
    assert_eq!(ErrorResponse::UNABLE_TO_PARSE_RESPONSE_TEXT(m()).into_error_response_details(), details(500, "ERR-002", "m"));
    assert_eq!(ErrorResponse::REMOTE_SERVER_SENT_INVALID_DATA(m()).into_error_response_details(), details(500, "ERR-003", "m"));
    assert_eq!(ErrorResponse::AUTH_FAILED(m()).into_error_response_details(), details(401, "ERR-004", "m"));
    assert_eq!(ErrorResponse::BAD_REQUEST(m()).into_error_response_details(), details(400, "ERR-005", "m"));
}

#[test]
fn failed_authorization_goes_back_to_the_login_form() {
    let p = ErrorResponse::AUTH_FAILED("Session expired".to_string()).error_page();
    assert_eq!(p, ErrorPage::Redirect("/?invalid=Session%20expired".to_string()));
    let p = ErrorResponse::AUTH_FAILED("zażółć & co".to_string()).error_page();
    assert_eq!(p, ErrorPage::Redirect("/?invalid=za%C5%BC%C3%B3%C5%82%C4%87%20%26%20co".to_string()));
}

#[test]
fn other_errors_are_pages_with_escaped_text() {
    let p = ErrorResponse::BAD_REQUEST("a<b>\"c'&".to_string()).error_page();
    let html = "\n            <h1>Error</h1><br/>\n            <a href=\"/\">go back to login</a><br/>\n            <p>ERR-005</p> <br /> \n            <p>a&lt;b&gt;&quot;c&#39;&amp;</p>";
    assert_eq!(p, ErrorPage::Page { status_code: 400, html: html.to_string() });
    match ErrorResponse::TEMPLATE_FILE_ERROR("gone".to_string()).error_page() {
        ErrorPage::Page { status_code, html } => {
            assert_eq!(status_code, 404);
            assert!(html.ends_with("<p>ERR-000</p> <br /> \n            <p>gone</p>"));
        }
        other => panic!("unexpected {:?}", other),
    }
}

#[test]
fn escaping_leaves_plain_text_alone() {
    assert_eq!(escape_html("plain text 123"), "plain text 123");
    assert_eq!(escape_html("<script>"), "&lt;script&gt;");
    assert_eq!(escape_html(""), "");
}
