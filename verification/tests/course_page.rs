use ekursy_api::web::errors::ErrorResponse;
use ekursy_api::web::route_course::{
    course_content_html, get_resource_list, parse_course_resources, Resource, ResourceKind,
};
use ekursy_api::web::html::fill_template;

fn res(kind: ResourceKind, data: &[&str], id: Option<&str>) -> Resource {
    Resource { kind, data: data.iter().map(|s| s.to_string()).collect(), id: id.map(|s| s.to_string()) }
}

const CARD_PAGE: &str = r#"<html><body>
<h1>Algebra</h1>
<div class="summary"><p>Welcome</p><ul><li>Rules</li></ul></div>
<div class="card section main"><div><span class="sectionname">General</span><div class="summary card-text">Card text</div><div class="activity label"><div class="contentwithoutlink"><p>Note one</p><p>Note two</p></div></div><div class="activity resource"><a class="aalink" href="https://ekursy.put.poznan.pl/mod/resource/view.php?id=11"><span class="activityinstance">Slides</span></a></div><div class="activity quiz"><span class="instancename">broken</span></div></div></div>
</body></html>"#;

#[test]
fn course_page_reads_title_description_and_cards() {
    let out = parse_course_resources(CARD_PAGE).unwrap();
    assert_eq!(
        out,
        vec![
            res(ResourceKind::TITLE, &["Algebra"], None),
            res(ResourceKind::DESCRIPTION, &["Welcome", "Rules"], None),
            res(ResourceKind::CARD_TITLE, &["General"], None),
            res(ResourceKind::CARD_DESCRIPTION, &["Card text"], None),
            res(ResourceKind::RESOURCE_DESCRIPTION, &["Note one", "Note two"], None),
            res(ResourceKind::FILE, &["Slides"], Some("resource$id=11")),
            res(ResourceKind::INVALID, &["Invalid resource"], None),
        ]
    );
}

#[test]
fn course_page_reads_sections_of_a_topics_list() {
    let html = r#"<h1>T</h1><div class="summary"><p>D</p></div>
<ul class="topics"><li class="section main"><h3>Week 1</h3><div class="activity url"><span class="activityinstance">Link</span></div><div class="activity forum"><span class="activityinstance">Forum</span></div></li></ul>"#;
    let out = parse_course_resources(html).unwrap();
    assert_eq!(
        out,
        vec![
            res(ResourceKind::TITLE, &["T"], None),
            res(ResourceKind::DESCRIPTION, &["D"], None),
            res(ResourceKind::CARD_TITLE, &["Week 1"], None),
            res(ResourceKind::URL, &["Link"], None),
            res(ResourceKind::OTHER, &["Forum"], None),
        ]
    );
}

#[test]
fn course_page_without_title_is_invalid_data() {
    let r = parse_course_resources("<div class=\"summary\"><p>x</p></div>");
    assert_eq!(r, Err(ErrorResponse::REMOTE_SERVER_SENT_INVALID_DATA("H1 not present".to_string())));
}

#[test]
fn course_page_without_description_is_invalid_data() {
    let r = parse_course_resources("<h1>x</h1>");
    assert_eq!(r, Err(ErrorResponse::REMOTE_SERVER_SENT_INVALID_DATA("desc not present".to_string())));
}

#[test]
fn course_page_card_without_title_is_invalid_data() {
    let html = r#"<h1>x</h1><div class="summary"><p>d</p></div><div class="card section main"><div><div class="summary">s</div></div></div>"#;
    let r = parse_course_resources(html);
    assert_eq!(r, Err(ErrorResponse::REMOTE_SERVER_SENT_INVALID_DATA("card title not present".to_string())));
}

#[test]
fn course_page_card_without_description_is_invalid_data() {
    let html = r#"<h1>x</h1><div class="summary"><p>d</p></div><div class="card section main"><div><span class="sectionname">n</span></div></div>"#;
    let r = parse_course_resources(html);
    assert_eq!(r, Err(ErrorResponse::REMOTE_SERVER_SENT_INVALID_DATA("card desc not present".to_string())));
}

#[test]
fn course_page_section_without_title_is_invalid_data() {
    let html = r#"<h1>x</h1><div class="summary"><p>d</p></div><ul class="topics"><li class="section main">no title</li></ul>"#;
    let r = parse_course_resources(html);
    assert_eq!(r, Err(ErrorResponse::REMOTE_SERVER_SENT_INVALID_DATA("title not present in section".to_string())));
}

#[test]
fn course_page_fetch_sent_elsewhere_is_an_expired_session() {
    let r = get_resource_list("https://ekursy.put.poznan.pl/login/index.php", "5", Some(CARD_PAGE));
    assert_eq!(r, Err(ErrorResponse::AUTH_FAILED("Session expired".to_string())));
    let r = get_resource_list("https://ekursy.put.poznan.pl/login/index.php", "5", None);
    assert_eq!(r, Err(ErrorResponse::AUTH_FAILED("Session expired".to_string())));
    let ok = get_resource_list("https://ekursy.put.poznan.pl/course/view.php?id=5", "5", Some(CARD_PAGE)).unwrap();
    assert_eq!(ok.len(), 7);
    let unreadable = get_resource_list("https://ekursy.put.poznan.pl/course/view.php?id=5", "5", None);
    assert_eq!(
        unreadable,
        Err(ErrorResponse::REMOTE_SERVER_SENT_INVALID_DATA("ekursy course response couldnt be parsed".to_string()))
    );
}

#[test]
fn resources_are_shown_as_html() {
    assert_eq!(
        res(ResourceKind::FILE, &["a", "b"], Some("resource$id=1")).into_html_string(),
        "<p><a target=\"_blank\" href=\"/view?id=resource$id=1\">ab</a></p>"
    );
    assert_eq!(res(ResourceKind::TITLE, &["x", "y"], None).into_html_string(), "<h1>xy</h1>");
    assert_eq!(res(ResourceKind::CARD_TITLE, &["c"], None).into_html_string(), "<h2>c</h2>");
    assert_eq!(res(ResourceKind::DESCRIPTION, &["p", "q"], None).into_html_string(), "<p>p<br/>q</p>");
    assert_eq!(res(ResourceKind::RESOURCE_DESCRIPTION, &["r"], None).into_html_string(), "<p>r</p>");
    assert_eq!(res(ResourceKind::QUIZ, &["m", "n"], None).into_html_string(), "<p>mn</p>");
    assert_eq!(res(ResourceKind::OTHER, &[], None).into_html_string(), "<p></p>");
}

#[test]
fn course_content_lists_every_resource_after_the_logout_link() {
    let rs = vec![res(ResourceKind::TITLE, &["T"], None), res(ResourceKind::OTHER, &["o"], None)];
    assert_eq!(course_content_html(&rs), "<a href=\"/logout\">log out</a><br/><br/><h1>T</h1><p>o</p>");
    assert_eq!(course_content_html(&vec![]), "<a href=\"/logout\">log out</a><br/><br/>");
}

#[test]
fn template_placeholder_is_filled() {
    assert_eq!(fill_template("<body>{% CONTENT %}</body>", "x"), "<body>x</body>");
    assert_eq!(fill_template("a{% CONTENT %}b{% CONTENT %}", "-"), "a-b-");
    assert_eq!(fill_template("plain", "x"), "plain");
}
