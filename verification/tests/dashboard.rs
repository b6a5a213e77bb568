use ekursy_api::web::errors::ErrorResponse;
use ekursy_api::web::route_dashboard::{dashboard_content_html, get_course_list, Course};

fn course(name: &str, id: &str) -> Course {
    Course { name: name.to_string(), id: id.to_string() }
}

#[test]
fn dashboard_menu_courses_sorted_by_name() {
    let html = r#"<html><body><div class="dropdown-menu">
<a href="https://ekursy.put.poznan.pl/course/view.php?id=7">Physics <b>II</b></a>
<a href="https://ekursy.put.poznan.pl/my/">Dashboard</a>
<span>no link</span>
<a href="https://ekursy.put.poznan.pl/course/view.php?id=3">Algebra</a>
<a href="https://ekursy.put.poznan.pl/course/view.php?id=9">Physics I</a>
</div><div class="dropdown-menu"><a href="https://ekursy.put.poznan.pl/course/view.php?id=1">Other</a></div></body></html>"#;
    let out = get_course_list(html).unwrap();
    assert_eq!(out, vec![course("Algebra", "3"), course("Physics I", "9"), course("Physics II", "7")]);
}

#[test]
fn dashboard_equal_names_keep_their_order() {
    let html = r#"<div class="dropdown-menu"><a href="https://ekursy.put.poznan.pl/course/view.php?id=2">B</a><a href="https://ekursy.put.poznan.pl/course/view.php?id=1">A</a><a href="https://ekursy.put.poznan.pl/course/view.php?id=3">A</a></div>"#;
    let out = get_course_list(html).unwrap();
    assert_eq!(out, vec![course("A", "1"), course("A", "3"), course("B", "2")]);
}

#[test]
fn dashboard_without_menu_is_an_expired_session() {
    let r = get_course_list("<html><body><form>login</form></body></html>");
    assert_eq!(r, Err(ErrorResponse::AUTH_FAILED("Session expired".to_string())));
}

#[test]
fn dashboard_content_links_each_course() {
    let out = dashboard_content_html(&vec![course("<A&B>", "1 2"), course("C", "3")]);
    assert_eq!(
        out,
        "<a href=\"/logout\">log out</a><br/><br/><a href=\"/course?id=1%202\">&lt;A&amp;B&gt;</a><br/><a href=\"/course?id=3\">C</a><br/>"
    );
}
