use ekursy_api::errors::ErrorResponse;
use ekursy_api::parsers::ParserKind;
use ekursy_api::web::routes::course::{choose_parser, course_page_url, get_course_html};
use ekursy_api::web::routes::course_grades::{get_course_grades_html, grades_page_url};
use ekursy_api::web::routes::forum::{discussion_page_url, forum_page_url};
use ekursy_api::web::routes::proxy::{pass_content_type, proxy_url};
use ekursy_api::web::routes::resource::{
    extract_url, iframe_target, is_external_redirect, resource_type, resource_url, ResourceType,
};
use ekursy_api::web::routes::{check_not_redirected, check_session};
use ekursy_api::web::route_index::index_template_path;

fn expired() -> ErrorResponse {
    ErrorResponse::AUTH_FAILED("Session expired".to_string())
}

#[test]
fn landing_on_the_login_form_is_an_expired_session() {
    assert_eq!(check_session("https://ekursy.put.poznan.pl/login/index.php?x=1"), Err(expired()));
    assert_eq!(check_session("https://ekursy.put.poznan.pl/mod/forum/view.php?id=1"), Ok(()));
}

#[test]
fn landing_elsewhere_than_asked_is_an_expired_session() {
    let url = "https://ekursy.put.poznan.pl/course/view.php?id=4";
    assert_eq!(check_not_redirected("https://ekursy.put.poznan.pl/course/view.php?id=4#s", url), Ok(()));
    assert_eq!(check_not_redirected("https://ekursy.put.poznan.pl/login/index.php", url), Err(expired()));
}

#[test]
fn parser_is_chosen_by_name_with_mercury_by_default() {
    assert_eq!(choose_parser(None), Ok(ParserKind::Mercury));
    assert_eq!(choose_parser(Some("raw".to_string())), Ok(ParserKind::Raw));
    assert_eq!(choose_parser(Some("mercury".to_string())), Ok(ParserKind::Mercury));
    assert_eq!(
        choose_parser(Some("merkury".to_string())),
        Err(ErrorResponse::BAD_REQUEST("Parser with name \"merkury\" doesn't exist".to_string()))
    );
}

#[test]
fn course_html_is_passed_on_when_the_fetch_stayed() {
    assert_eq!(course_page_url("12"), "https://ekursy.put.poznan.pl/course/view.php?id=12");
    let ok = get_course_html("https://ekursy.put.poznan.pl/course/view.php?id=12", "12", Some("<p>x</p>".to_string()));
    assert_eq!(ok, Ok("<p>x</p>".to_string()));
    let err = get_course_html("https://ekursy.put.poznan.pl/login/index.php", "12", Some("<p>x</p>".to_string()));
    assert_eq!(err, Err(expired()));
    let err = get_course_html("https://ekursy.put.poznan.pl/course/view.php?id=12", "12", None);
    assert_eq!(
        err,
        Err(ErrorResponse::REMOTE_SERVER_SENT_INVALID_DATA("ekursy course response couldnt be parsed".to_string()))
    );
    let grades = get_course_grades_html("https://ekursy.put.poznan.pl/grade/report/user/index.php?id=3", "3", Some("g".to_string()));
    assert_eq!(grades, Ok("g".to_string()));
    assert_eq!(get_course_grades_html("https://ekursy.put.poznan.pl/course/view.php?id=3", "3", None), Err(expired()));
}

#[test]
fn page_addresses_are_built_from_ids() {
    assert_eq!(grades_page_url("8"), "https://ekursy.put.poznan.pl/grade/report/user/index.php?id=8");
    assert_eq!(forum_page_url("3"), "https://ekursy.put.poznan.pl/mod/forum/view.php?id=3");
    assert_eq!(discussion_page_url("9"), "https://ekursy.put.poznan.pl/mod/forum/discuss.php?d=9");
    assert_eq!(proxy_url("pluginfile.php/1/a.pdf"), "https://ekursy.put.poznan.pl/pluginfile.php/1/a.pdf");
    assert_eq!(resource_url("url", "5"), "https://ekursy.put.poznan.pl/mod/url/view.php?id=5");
}

#[test]
fn passed_through_answers_need_a_content_type() {
    assert_eq!(pass_content_type(Some(b"text/plain".to_vec())), Ok(b"text/plain".to_vec()));
    assert_eq!(
        pass_content_type(None),
        Err(ErrorResponse::REMOTE_SERVER_SENT_INVALID_DATA("No Content-Type header".to_string()))
    );
}

#[test]
fn resource_kinds_are_resource_and_url() {
    assert_eq!(resource_type("resource"), Ok(ResourceType::Resource));
    assert_eq!(resource_type("url"), Ok(ResourceType::Url));
    assert_eq!(
        resource_type("quiz"),
        Err(ErrorResponse::UNABLE_TO_PARSE_RESPONSE_TEXT("Unknown resource type".to_string()))
    );
    assert!(is_external_redirect("https://a/x", "https://b/y"));
    assert!(!is_external_redirect("https://a/x", "https://a/x"));
}

#[test]
fn file_page_frame_is_followed() {
    let html = r#"<div><iframe src="https://ekursy.put.poznan.pl/pluginfile.php/2/f.pdf"></iframe><iframe src="other"></iframe></div>"#;
    assert_eq!(iframe_target(html), Ok("https://ekursy.put.poznan.pl/pluginfile.php/2/f.pdf".to_string()));
    let no_parser = ErrorResponse::BAD_REQUEST("No parser for requested resource of type \"resource\" exists".to_string());
    assert_eq!(iframe_target("<div>no frame</div>"), Err(no_parser));
    let no_parser = ErrorResponse::BAD_REQUEST("No parser for requested resource of type \"resource\" exists".to_string());
    assert_eq!(iframe_target("<iframe></iframe>"), Err(no_parser));
}

#[test]
fn link_page_target_is_read() {
    let html = r#"<div class="urlworkaround">Click <a href="https://example.com/doc">here</a></div>"#;
    assert_eq!(extract_url(html), Ok("https://example.com/doc".to_string()));
    let invalid = |m: &str| Err(ErrorResponse::REMOTE_SERVER_SENT_INVALID_DATA(m.to_string()));
    assert_eq!(extract_url("<a href=\"x\">x</a>"), invalid("Unable to select url wrapper in resource"));
    assert_eq!(extract_url("<div class=\"urlworkaround\">none</div>"), invalid("Unable to select url element in resource"));
    assert_eq!(extract_url("<div class=\"urlworkaround\"><a>x</a></div>"), invalid("Unable to select url in resource"));
}

#[test]
fn index_page_template_depends_on_the_notice() {
    assert_eq!(index_template_path(false), "templates/index.html");
    assert_eq!(index_template_path(true), "templates/index-invalid.html");
}
