use ekursy_api::errors::ErrorResponse;
use ekursy_api::web::routes::course_grades::{build_grade_tree, parse_moodle_grades, GradeNode, ParsedRow};
use ekursy_api::web::routes::forum::{
    parse_discussion_html, parse_forum_html, DiscussionDetails, DiscussionThread, ForumDetails, ForumPost,
};
use ekursy_api::web::routes::me::{insert_entry, profile_fields};

fn thread(id: &str, title: &str) -> DiscussionThread {
    DiscussionThread { id: id.to_string(), title: title.to_string() }
}

#[test]
fn forum_page_lists_its_threads() {
    let html = r#"<html><body><h2> News forum </h2><div id="intro"><div class="no-overflow"> Read me </div></div>
<table><tbody>
<tr class="discussion" data-discussionid="10"><th class="topic"><a href="https://ekursy.put.poznan.pl/mod/forum/discuss.php?d=55&amp;parent=1"> First </a></th></tr>
<tr class="discussion" data-discussionid="11"><td class="topic"><a href="https://ekursy.put.poznan.pl/x">Second</a></td></tr>
<tr class="discussion"><td>no link</td></tr>
</tbody></table></body></html>"#;
    let out = parse_forum_html(html, "3".to_string()).unwrap();
    assert_eq!(
        out,
        ForumDetails {
            id: "3".to_string(),
            title: "News forum".to_string(),
            description: "Read me".to_string(),
            threads: vec![thread("55", "First"), thread("11", "Second")],
        }
    );
}

#[test]
fn forum_page_without_heading_is_announcements() {
    let out = parse_forum_html("<p>nothing</p>", "4".to_string()).unwrap();
    assert_eq!(out.title, "Announcements");
    assert_eq!(out.description, "");
    assert!(out.threads.is_empty());
}

#[test]
fn discussion_page_lists_its_posts() {
    let html = r#"<h3 class="discussionname"> Exam date </h3>
<article data-region="post" data-post-id="100"><div class="post-heading">Re: exam</div>
<div class="author-time-info"><a href="u">Jan Kowalski</a><time>Monday</time></div>
<div class="fullmessage"><p>It is on Friday.</p></div></article>
<article data-region="post"><div class="post-content-container">Second</div></article>"#;
    let out = parse_discussion_html(html, "9".to_string()).unwrap();
    assert_eq!(
        out,
        DiscussionDetails {
            id: "9".to_string(),
            title: "Exam date".to_string(),
            posts: vec![
                ForumPost {
                    id: "100".to_string(),
                    subject: "Re: exam".to_string(),
                    author: "Jan Kowalski".to_string(),
                    time: "Monday".to_string(),
                    content: "<div class=\"fullmessage\"><p>It is on Friday.</p></div>".to_string(),
                },
                ForumPost {
                    id: "".to_string(),
                    subject: "".to_string(),
                    author: "".to_string(),
                    time: "".to_string(),
                    content: "<div class=\"post-content-container\">Second</div>".to_string(),
                },
            ],
        }
    );
}

#[test]
fn profile_fields_pair_labels_with_values() {
    let html = r#"<section class="contentnode"><dl><dt> Student number </dt><dd> 123456 </dd></dl></section>
<section class="contentnode"><dl><dt>Semester</dt><dd>3</dd><dt>Student number</dt><dd>654321</dd><dt>Extra</dt></dl></section>"#;
    let out = profile_fields(html);
    assert_eq!(
        out,
        vec![
            ("Student number".to_string(), "654321".to_string()),
            ("Semester".to_string(), "3".to_string()),
        ]
    );
}

#[test]
fn profile_entry_is_replaced_or_appended() {
    let mut e = vec![("a".to_string(), "1".to_string())];
    insert_entry(&mut e, "b".to_string(), "2".to_string());
    insert_entry(&mut e, "a".to_string(), "3".to_string());
    assert_eq!(e, vec![("a".to_string(), "3".to_string()), ("b".to_string(), "2".to_string())]);
}

fn row(level: usize, is_category: bool, name: &str) -> ParsedRow {
    ParsedRow {
        level,
        is_category,
        name: name.to_string(),
        weight: String::new(),
        grade: String::new(),
        range: String::new(),
        percentage: String::new(),
        letter_grade: String::new(),
        feedback: String::new(),
        contribution: String::new(),
    }
}

fn node(level: usize, is_category: bool, name: &str, children: Vec<GradeNode>) -> GradeNode {
    GradeNode {
        level,
        is_category,
        name: name.to_string(),
        weight: String::new(),
        grade: String::new(),
        range: String::new(),
        percentage: String::new(),
        letter_grade: String::new(),
        feedback: String::new(),
        contribution: String::new(),
        children,
    }
}

#[test]
fn grade_rows_nest_by_level() {
    let rows = vec![
        row(1, true, "Course"),
        row(2, false, "Lab 1"),
        row(2, true, "Exams"),
        row(3, false, "Midterm"),
        row(2, false, "Lab 2"),
        row(1, false, "Bonus"),
    ];
    let tree = build_grade_tree(&rows);
    assert_eq!(
        tree,
        vec![
            node(1, true, "Course", vec![
                node(2, false, "Lab 1", vec![]),
                node(2, true, "Exams", vec![node(3, false, "Midterm", vec![])]),
                node(2, false, "Lab 2", vec![]),
            ]),
            node(1, false, "Bonus", vec![]),
        ]
    );
    assert_eq!(build_grade_tree(&vec![]), vec![]);
}

#[test]
fn grade_report_is_read_from_the_table() {
    let html = "<table class=\"user-grade\"><tbody>\
<tr><th class=\"column-itemname level1 category\"><div class=\"category-content\"><span> Course </span></div></th>\
<td class=\"column-weight\"></td><td class=\"column-grade\">\u{a0}40\u{a0}</td></tr>\
<tr class=\"spacer\"><th class=\"column-itemname level2\">skip</th></tr>\
<tr><th class=\"column-itemname level2 item\"><a class=\"gradeitemheader\">Lab 1</a></th>\
<td class=\"column-weight\">50,00 %</td><td class=\"column-grade\">20</td><td class=\"column-range\">0&ndash;25</td>\
<td class=\"column-percentage\">80,00 %</td><td class=\"column-lettergrade\">B</td><td class=\"column-feedback\">ok</td>\
<td class=\"column-contributiontocoursetotal\">10,00 %</td></tr>\
<tr><td>no name cell</td></tr>\
</tbody></table>";
    let tree = parse_moodle_grades(html);
    assert_eq!(tree.len(), 1);
    let course = &tree[0];
    assert_eq!((course.level, course.is_category, course.name.as_str()), (1, true, "Course"));
    assert_eq!(course.grade, "40");
    assert_eq!(course.children.len(), 1);
    let lab = &course.children[0];
    assert_eq!(
        lab,
        &GradeNode {
            level: 2,
            is_category: false,
            name: "Lab 1".to_string(),
            weight: "50,00 %".to_string(),
            grade: "20".to_string(),
            range: "0–25".to_string(),
            percentage: "80,00 %".to_string(),
            letter_grade: "B".to_string(),
            feedback: "ok".to_string(),
            contribution: "10,00 %".to_string(),
            children: vec![],
        }
    );
}

#[test]
fn page_errors_keep_their_message() {
    let e = ErrorResponse::AUTH_FAILED("x".to_string());
    assert_eq!(e.details().status_code, 401);
}

#[test]
fn page_selection_goes_by_creation_order() {
    // The second heading is created after the first, but the parser moves it
    // in front of the table; selecting in the page still finds the first.
    let html = "<table><tr><td><h2>Inside</h2></td></tr><h2>Fostered</h2></table>";
    let out = parse_forum_html(html, "1".to_string()).unwrap();
    assert_eq!(out.title, "Inside");
}
