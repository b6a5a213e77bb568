use ekursy_api::errors::{session_expired, ErrorResponse, ErrorResponseDetails};
use ekursy_api::web::routes::course_list::{
    courses_from_ajax, get_sesskey, AjaxResponse, AjaxResponseCourse, AjaxResponseData, Course, ParsingError,
};
use ekursy_api::web::routes::login::{
    check_login_result, elogin_form, get_csrf_token, get_redirect2_data, moodle_session_key, Redirect2Data, SignIn,
};

fn invalid(m: &str) -> ErrorResponse {
    ErrorResponse::REMOTE_SERVER_SENT_INVALID_DATA(m.to_string())
}

#[test]
fn csrf_token_is_read_from_the_login_form() {
    let html = r#"<form><input name="csrf_token" value="tok123"><input name="other" value="x"></form>"#;
    assert_eq!(get_csrf_token(html.to_string()), Ok("tok123".to_string()));
    assert_eq!(get_csrf_token("<form></form>".to_string()), Err(invalid("CSRF token field missing")));
    assert_eq!(
        get_csrf_token("<input name=\"csrf_token\">".to_string()),
        Err(invalid("CSRF token field doesnt have value attr"))
    );
}

#[test]
fn redirect_form_fields_are_read() {
    let html = r#"<form><input name="version" value="1"><input name="language" value="pl">
<input name="gravatar_hash" value="g"><input name="gravatarHash" value="G"><input name="sessionAuthorizationKey" value="k"></form>"#;
    assert_eq!(
        get_redirect2_data(html.to_string()),
        Ok(Redirect2Data {
            version: "1".to_string(),
            language: "pl".to_string(),
            gravatar_hash: "g".to_string(),
            gravatarHash: "G".to_string(),
            sessionAuthorizationKey: "k".to_string(),
        })
    );
    let missing = r#"<input name="version" value="1"><input name="language" value="pl">"#;
    assert_eq!(get_redirect2_data(missing.to_string()), Err(invalid("Missing input field: input[name=gravatar_hash]")));
    let no_value = r#"<input name="version">"#;
    assert_eq!(get_redirect2_data(no_value.to_string()), Err(invalid("Input field doesnt have value: input[name=version]")));
}

#[test]
fn login_form_carries_the_credentials() {
    let f = elogin_form(SignIn { email: "a@b.c".to_string(), password: "pw".to_string() }, "t".to_string());
    assert_eq!((f.login.as_str(), f.password.as_str(), f.csrf_token.as_str(), f.send.as_str()), ("a@b.c", "pw", "t", ""));
}

#[test]
fn landing_on_elogin_again_is_a_refused_login() {
    let elogin = "https://elogin.put.poznan.pl/?do=Authorize";
    assert_eq!(
        check_login_result("https://elogin.put.poznan.pl/?do=Authorize&x=1", elogin),
        Err(ErrorResponse::AUTH_FAILED("Invalid login or password".to_string()))
    );
    assert_eq!(check_login_result("https://ekursy.put.poznan.pl/", elogin), Ok(()));
}

#[test]
fn session_key_is_the_moodle_session_cookie() {
    assert_eq!(moodle_session_key(Some("a=1; MoodleSession=xyz; b=2".to_string())), Ok("xyz".to_string()));
    assert_eq!(moodle_session_key(Some("a=1; b=2".to_string())), Ok("a=1; b=2".to_string()));
    assert_eq!(moodle_session_key(None), Err(invalid("Moodle Session not found in response")));
}

#[test]
fn sesskey_is_read_from_the_dashboard() {
    assert_eq!(get_sesskey("<input name=\"sesskey\" value=\"S1\">".to_string()), Ok("S1".to_string()));
    assert_eq!(get_sesskey("<p>login</p>".to_string()), Err(session_expired()));
    assert_eq!(get_sesskey("<input name=\"sesskey\">".to_string()), Err(invalid("Server didn't sent session key")));
}

fn entry(id: u32, name: &str, url: &str, category: &str) -> AjaxResponseCourse {
    AjaxResponseCourse {
        id,
        fullname: name.to_string(),
        shortname: String::new(),
        idnumber: String::new(),
        summary: String::new(),
        summaryformat: 1,
        startdate: 0,
        enddate: 0,
        visible: true,
        showactivitydates: false,
        showcompletionconditions: None,
        fullnamedisplay: name.to_string(),
        viewurl: url.to_string(),
        courseimage: String::new(),
        progress: 0,
        hasprogress: false,
        isfavourite: false,
        hidden: false,
        showshortname: false,
        coursecategory: category.to_string(),
    }
}

fn answer(courses: Vec<AjaxResponseCourse>) -> Vec<AjaxResponse> {
    vec![AjaxResponse { error: false, data: AjaxResponseData { courses, nextoffset: 0 } }]
}

fn course(name: &str, id: &str, category: &str) -> Course {
    Course { name: name.to_string(), id: id.to_string(), category: category.to_string() }
}

#[test]
fn course_list_is_sorted_by_name() {
    let data = answer(vec![
        entry(2, "Physics", "https://ekursy.put.poznan.pl/course/view.php?id=2", "Sem 1"),
        entry(1, "Algebra", "https://ekursy.put.poznan.pl/course/view.php?id=1", "Sem 2"),
        entry(3, "Algebra", "https://ekursy.put.poznan.pl/course/view.php?id=3", "Sem 1"),
    ]);
    assert_eq!(
        courses_from_ajax(&data),
        Ok(vec![course("Algebra", "1", "Sem 2"), course("Algebra", "3", "Sem 1"), course("Physics", "2", "Sem 1")])
    );
    assert_eq!(courses_from_ajax(&answer(vec![])), Ok(vec![]));
}

#[test]
fn hidden_courses_are_left_out() {
    let mut hidden = entry(1, "Hidden", "x?id=1", "c");
    hidden.hidden = true;
    let mut hidden_without_id = entry(4, "Broken", "no-id-here", "c");
    hidden_without_id.hidden = true;
    let data = answer(vec![hidden, entry(2, "Shown", "x?id=2", "c"), hidden_without_id]);
    assert_eq!(courses_from_ajax(&data), Ok(vec![course("Shown", "2", "c")]));
}

#[test]
fn course_without_id_in_its_url_fails_the_list() {
    let data = answer(vec![
        entry(1, "A", "https://ekursy.put.poznan.pl/course/view.php?id=1", "c"),
        entry(2, "B", "https://ekursy.put.poznan.pl/course/", "c"),
    ]);
    assert_eq!(
        courses_from_ajax(&data),
        Err(ErrorResponse::UNABLE_TO_PARSE_RESPONSE_TEXT("Couldnt parse course's visiturl for id".to_string()))
    );
    assert_eq!(Course::try_from_ajax(&entry(2, "B", "x", "c")), Err(ParsingError));
    assert_eq!(Course::try_from_ajax(&entry(2, "B", "v?id=12&y", "c")), Ok(course("B", "12&y", "c")));
}

#[test]
fn api_errors_have_their_status_and_code() {
    let d = |s: u16, c: &str| ErrorResponseDetails { status_code: s, error_code: c.to_string(), msg: "m".to_string() };
    let m = || "m".to_string();
    assert_eq!(ErrorResponse::REMOTE_SERVER_DIDNT_RESPOND(m()).details(), d(500, "ERR-001"));
    assert_eq!(ErrorResponse::UNABLE_TO_PARSE_RESPONSE_TEXT(m()).details(), d(500, "ERR-002"));
    assert_eq!(ErrorResponse::REMOTE_SERVER_SENT_INVALID_DATA(m()).details(), d(500, "ERR-003"));
    assert_eq!(ErrorResponse::AUTH_FAILED(m()).details(), d(401, "ERR-004"));
    assert_eq!(ErrorResponse::BAD_REQUEST(m()).details(), d(400, "ERR-005"));
    assert_eq!(ErrorResponse::PARSER_FOR_THIS_RESOURCE_DOESNT_EXIST(m()).details(), d(422, "ERR-006"));
}
