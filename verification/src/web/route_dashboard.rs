//! `/dashboard` and `/api/dashboard` of the HTML front end: the courses of
//! the dashboard's menu, sorted by name.
use vstd::prelude::*;
use crate::dom::{page_first, select_first_in_page, attr_of, document_tree, first_below, flags_for, node_attr, parse_document, select_first, selector_matches, text_content, text_of, DomNode, TreeView};
use crate::sorting::{insert_by_key, insert_index, lemma_sort_by_key_permutes, lemma_sort_by_key_sorted, sort_by_key, sorted_by_key};
use crate::text::{copy_str, has_prefix, lex_greater, lex_lt, replace, replace_all, starts_with};
use crate::web::errors::{ErrorResponse, ErrorView};
use crate::web::html::{escape_html, escaped_html, url_encode, url_encoded};

verus! {

/// A course of the dashboard's menu: its name and its id.
#[derive(Debug, PartialEq, Eq)]
pub struct Course {
    pub name: String,
    pub id: String,
}

/// The mathematical value of a [`Course`].
pub struct CourseView {
    pub name: Seq<char>,
    pub id: Seq<char>,
}

impl DeepView for Course {
    type V = CourseView;

    open spec fn deep_view(&self) -> CourseView {
        CourseView { name: self.name@, id: self.id@ }
    }
}

/// The address prefix of a course page.
pub open spec fn course_link_prefix() -> Seq<char> {
    "https://ekursy.put.poznan.pl/course/view.php?id="@
}

/// The course an entry of the menu links to: an element whose `href` is a
/// course page; its name is its text and its id the rest of the address.
pub open spec fn menu_course(item: TreeView) -> Option<CourseView> {
    match attr_of(item, "href"@) {
        Some(href) => if has_prefix(href, course_link_prefix()) {
            Some(CourseView { name: text_of(item), id: replace_all(href, course_link_prefix(), Seq::empty()) })
        } else {
            None
        },
        None => None,
    }
}

/// The courses the entries of the menu link to, in their order.
pub open spec fn menu_courses(items: Seq<TreeView>) -> Seq<CourseView>
    decreases items.len(),
{
    if items.len() == 0 {
        Seq::empty()
    } else {
        menu_courses(items.drop_last()) + match menu_course(items.last()) {
            Some(c) => seq![c],
            None => Seq::empty(),
        }
    }
}

/// The key courses are sorted by: their name.
pub open spec fn by_name() -> spec_fn(CourseView) -> Seq<char> {
    |c: CourseView| c.name
}

/// The course list of the dashboard page: the courses of its first
/// `.dropdown-menu`, sorted by name (equal names keep their order). A page
/// without that menu is a session that has expired.
pub open spec fn dashboard_courses(html: Seq<char>) -> Result<Seq<CourseView>, ErrorView> {
    match page_first(document_tree(html), selector_matches(html, ".dropdown-menu"@)) {
        None => Err(ErrorView::AUTH_FAILED("Session expired"@)),
        Some(menu) => Ok(sort_by_key(menu_courses(menu.children), by_name())),
    }
}

/// The course an entry of the menu links to (see [`menu_course`]).
fn menu_course_of(item: &DomNode) -> (r: Option<Course>)
    ensures
        r.deep_view() == menu_course(item.deep_view()),
{
    proof {
        reveal_strlit("https://ekursy.put.poznan.pl/course/view.php?id=");
        reveal_strlit("");
        assert(""@ =~= Seq::<char>::empty());
    }
    match node_attr(item, "href") {
        None => None,
        Some(href) => {
            if !starts_with(href.as_str(), "https://ekursy.put.poznan.pl/course/view.php?id=") {
                return None;
            }
            let id = replace(href.as_str(), "https://ekursy.put.poznan.pl/course/view.php?id=", "");
            let name = text_content(item);
            Some(Course { name, id })
        }
    }
}

/// Inserts `c` into the name-sorted `out` after every course whose name is
/// not greater.
fn insert_course(out: &mut Vec<Course>, c: Course)
    ensures
        final(out).deep_view() == insert_by_key(old(out).deep_view(), c.deep_view(), by_name()),
{
    let ghost ov = out.deep_view();
    let ghost key = by_name();
    let mut k: usize = 0;
    while k < out.len() && !lex_greater(out[k].name.as_str(), c.name.as_str())
        invariant
            k <= out@.len(),
            ov == out.deep_view(),
            key == by_name(),
            insert_index(ov, c.deep_view(), key, 0) == insert_index(ov, c.deep_view(), key, k as int),
        decreases out@.len() - k,
    {
        assert(ov[k as int] == out@[k as int].deep_view());
        assert(key(ov[k as int]) == out@[k as int].name@);
        assert(!lex_lt(key(c.deep_view()), key(ov[k as int])));
        k += 1;
    }
    proof {
        if k < out@.len() {
            assert(ov[k as int] == out@[k as int].deep_view());
            assert(key(ov[k as int]) == out@[k as int].name@);
            assert(lex_lt(key(c.deep_view()), key(ov[k as int])));
        }
    }
    out.insert(k, c);
    assert(out.deep_view() =~= ov.take(k as int).push(c.deep_view()) + ov.skip(k as int));
}

/// Reads the course list of the dashboard page (see [`dashboard_courses`]).
pub fn get_course_list(html: &str) -> (r: Result<Vec<Course>, ErrorResponse>)
    ensures
        match r {
            Ok(v) => dashboard_courses(html@) == Ok::<Seq<CourseView>, ErrorView>(v.deep_view()),
            Err(e) => dashboard_courses(html@) == Err::<Seq<CourseView>, ErrorView>(e.deep_view()),
        },
{
    let document = parse_document(html);
    let flags = flags_for(&document, ".dropdown-menu");
    let menu = match select_first_in_page(&document.root, &flags) {
        Some(m) => m,
        None => {
            return Err(ErrorResponse::AUTH_FAILED(copy_str("Session expired")));
        }
    };
    let items = &menu.children;
    let ghost iv = items.deep_view();
    assert(menu.deep_view().children =~= iv);
    let mut found: Vec<Course> = Vec::new();
    let mut i: usize = 0;
    assert(iv.take(0) =~= Seq::<TreeView>::empty());
    assert(found.deep_view() =~= Seq::<CourseView>::empty());
    while i < items.len()
        invariant
            i <= items@.len(),
            iv == items.deep_view(),
            found.deep_view() == menu_courses(iv.take(i as int)),
        decreases items@.len() - i,
    {
        assert(iv.take(i + 1).drop_last() =~= iv.take(i as int));
        assert(iv.take(i + 1).last() == items@[i as int].deep_view());
        let ghost before = found.deep_view();
        match menu_course_of(&items[i]) {
            Some(c) => {
                found.push(c);
                assert(found.deep_view() =~= before + seq![c.deep_view()]);
            }
            None => {
                assert(before + Seq::<CourseView>::empty() =~= before);
            }
        }
        i += 1;
    }
    assert(iv.take(items@.len() as int) =~= iv);
    let ghost key = by_name();
    let ghost fv = found.deep_view();
    let mut out: Vec<Course> = Vec::new();
    let mut j: usize = 0;
    assert(fv.take(0) =~= Seq::<CourseView>::empty());
    assert(out.deep_view() =~= Seq::<CourseView>::empty());
    while j < found.len()
        invariant
            j <= found@.len(),
            fv == found.deep_view(),
            key == by_name(),
            out.deep_view() == sort_by_key(fv.take(j as int), key),
        decreases found@.len() - j,
    {
        let c = Course { name: found[j].name.clone(), id: found[j].id.clone() };
        assert(fv.take(j + 1).drop_last() =~= fv.take(j as int));
        assert(fv.take(j + 1).last() == c.deep_view());
        insert_course(&mut out, c);
        j += 1;
    }
    assert(fv.take(fv.len() as int) =~= fv);
    Ok(out)
}

/// The course list is sorted by name and holds exactly the courses the menu
/// links to.
pub proof fn lemma_dashboard_courses_sorted(html: Seq<char>)
    ensures
        dashboard_courses(html) matches Ok(cs) ==> sorted_by_key(cs, by_name())
            && cs.to_multiset() == menu_courses(
                page_first(document_tree(html), selector_matches(html, ".dropdown-menu"@))->0.children,
            ).to_multiset(),
{
    if let Some(menu) = page_first(document_tree(html), selector_matches(html, ".dropdown-menu"@)) {
        let found = menu_courses(menu.children);
        lemma_sort_by_key_sorted(found, by_name());
        lemma_sort_by_key_permutes(found, by_name());
    }
}

/// The body of the `/dashboard` page: a log-out link, then a link to each
/// course, its id percent-encoded and its name escaped.
pub open spec fn dashboard_content(cs: Seq<CourseView>) -> Seq<char>
    decreases cs.len(),
{
    if cs.len() == 0 {
        "<a href=\"/logout\">log out</a><br/><br/>"@
    } else {
        dashboard_content(cs.drop_last()) + "<a href=\"/course?id="@ + url_encoded(cs.last().id) + "\">"@
            + escaped_html(cs.last().name) + "</a><br/>"@
    }
}

/// The body of the `/dashboard` page (see [`dashboard_content`]).
pub fn dashboard_content_html(courses: &Vec<Course>) -> (out: String)
    ensures
        out@ == dashboard_content(courses.deep_view()),
{
    let ghost cv = courses.deep_view();
    let mut out = copy_str("<a href=\"/logout\">log out</a><br/><br/>");
    let mut i: usize = 0;
    assert(cv.take(0) =~= Seq::<CourseView>::empty());
    while i < courses.len()
        invariant
            i <= courses@.len(),
            cv == courses.deep_view(),
            out@ == dashboard_content(cv.take(i as int)),
        decreases courses@.len() - i,
    {
        assert(cv.take(i + 1).drop_last() =~= cv.take(i as int));
        assert(cv.take(i + 1).last() == courses@[i as int].deep_view());
        let ghost before = out@;
        out.append("<a href=\"/course?id=");
        let id = url_encode(courses[i].id.as_str());
        out.append(id.as_str());
        out.append("\">");
        let name = escape_html(courses[i].name.as_str());
        out.append(name.as_str());
        out.append("</a><br/>");
        assert(out@ =~= before + "<a href=\"/course?id="@ + url_encoded(courses@[i as int].id@) + "\">"@
            + escaped_html(courses@[i as int].name@) + "</a><br/>"@);
        i += 1;
    }
    assert(cv.take(courses@.len() as int) =~= cv);
    out
}

} // verus!
