//! `/api/course_list`: the courses the student is enrolled in, from
//! Moodle's AJAX service, sorted by name.
use vstd::prelude::*;
use crate::dom::{page_first, select_first_in_page, attr_of, document_tree, first_below, flags_for, node_attr, parse_document, select_first, selector_matches};
use crate::errors::{ErrorResponse, ErrorView};
use crate::sorting::{insert_by_key, insert_index, lemma_sort_by_key_permutes, lemma_sort_by_key_sorted, sort_by_key, sorted_by_key};
use crate::text::{copy_str, find, find_first, lex_greater, lex_lt, substring, to_chars};

verus! {

/// A course as Moodle's `core_course_get_enrolled_courses_by_timeline_classification`
/// service describes it.
#[derive(Debug, PartialEq, Eq)]
pub struct AjaxResponseCourse {
    pub id: u32,
    pub fullname: String,
    pub shortname: String,
    pub idnumber: String,
    pub summary: String,
    pub summaryformat: u8,
    pub startdate: u64,
    pub enddate: u64,
    pub visible: bool,
    pub showactivitydates: bool,
    pub showcompletionconditions: Option<bool>,
    pub fullnamedisplay: String,
    pub viewurl: String,
    pub courseimage: String,
    pub progress: u8,
    pub hasprogress: bool,
    pub isfavourite: bool,
    pub hidden: bool,
    pub showshortname: bool,
    pub coursecategory: String,
}

/// The `data` of one answer of the service.
#[derive(Debug, PartialEq, Eq)]
pub struct AjaxResponseData {
    pub courses: Vec<AjaxResponseCourse>,
    pub nextoffset: i32,
}

/// One answer of the service.
#[derive(Debug, PartialEq, Eq)]
pub struct AjaxResponse {
    pub error: bool,
    pub data: AjaxResponseData,
}

/// A course of the list: name, id and category.
#[derive(Debug, PartialEq, Eq)]
pub struct Course {
    pub name: String,
    pub id: String,
    pub category: String,
}

/// The mathematical value of a [`Course`].
pub struct CourseView {
    pub name: Seq<char>,
    pub id: Seq<char>,
    pub category: Seq<char>,
}

impl DeepView for Course {
    type V = CourseView;

    open spec fn deep_view(&self) -> CourseView {
        CourseView { name: self.name@, id: self.id@, category: self.category@ }
    }
}

/// A course's view URL holds no `id=`.
#[derive(Debug, PartialEq, Eq)]
pub struct ParsingError;

/// The course an entry of the service describes: its id is what follows the
/// first `id=` of its view URL; `None` when there is no `id=`.
pub open spec fn course_of(fullname: Seq<char>, viewurl: Seq<char>, category: Seq<char>) -> Option<CourseView> {
    match find_first(viewurl, "id="@) {
        Some(idx) => Some(CourseView { name: fullname, id: viewurl.skip(idx + 3), category }),
        None => None,
    }
}

impl Course {
    /// The course an entry of the service describes (see [`course_of`]).
    pub fn try_from_ajax(value: &AjaxResponseCourse) -> (r: Result<Course, ParsingError>)
        ensures
            match r {
                Ok(c) => course_of(value.fullname@, value.viewurl@, value.coursecategory@) == Some(c.deep_view()),
                Err(_) => course_of(value.fullname@, value.viewurl@, value.coursecategory@) is None,
            },
    {
        proof {
            reveal_strlit("id=");
        }
        let chars = to_chars(value.viewurl.as_str());
        let n = chars.len();
        match find(value.viewurl.as_str(), "id=") {
            None => Err(ParsingError),
            Some(idx) => {
                assert(idx + 3 <= n);
                let id = substring(&chars, idx + 3, n);
                assert(id@ =~= value.viewurl@.skip(idx + 3));
                Ok(Course { name: value.fullname.clone(), id, category: value.coursecategory.clone() })
            }
        }
    }
}

/// The session key of the dashboard page: the `value` of its first
/// `input[name=sesskey]`. A page without one is a session that has expired.
pub open spec fn sesskey_of(html: Seq<char>) -> Result<Seq<char>, ErrorView> {
    match page_first(document_tree(html), selector_matches(html, "input[name=sesskey]"@)) {
        None => Err(ErrorView::AUTH_FAILED("Session expired"@)),
        Some(input) => match attr_of(input, "value"@) {
            Some(v) => Ok(v),
            None => Err(ErrorView::REMOTE_SERVER_SENT_INVALID_DATA("Server didn't sent session key"@)),
        },
    }
}

/// Reads the session key of the dashboard page (see [`sesskey_of`]).
pub fn get_sesskey(html: String) -> (r: Result<String, ErrorResponse>)
    ensures
        match r {
            Ok(v) => sesskey_of(html@) == Ok::<Seq<char>, ErrorView>(v@),
            Err(e) => sesskey_of(html@) == Err::<Seq<char>, ErrorView>(e.deep_view()),
        },
{
    let document = parse_document(html.as_str());
    let flags = flags_for(&document, "input[name=sesskey]");
    match select_first_in_page(&document.root, &flags) {
        None => Err(ErrorResponse::AUTH_FAILED(copy_str("Session expired"))),
        Some(element) => match node_attr(element, "value") {
            Some(v) => Ok(v),
            None => Err(ErrorResponse::REMOTE_SERVER_SENT_INVALID_DATA(copy_str("Server didn't sent session key"))),
        },
    }
}

/// The key courses are sorted by: their name.
pub open spec fn by_name() -> spec_fn(CourseView) -> Seq<char> {
    |c: CourseView| c.name
}

/// The courses of a list of entries, hidden entries left out, while every
/// other entry has an `id=`.
pub open spec fn courses_of(entries: Seq<AjaxResponseCourse>) -> Option<Seq<CourseView>>
    decreases entries.len(),
{
    if entries.len() == 0 {
        Some(Seq::empty())
    } else if entries.last().hidden {
        courses_of(entries.drop_last())
    } else {
        match (courses_of(entries.drop_last()), course_of(entries.last().fullname@, entries.last().viewurl@, entries.last().coursecategory@)) {
            (Some(cs), Some(c)) => Some(cs.push(c)),
            _ => None,
        }
    }
}

/// `c` is the course of an entry of `entries` that is not hidden.
pub open spec fn from_visible_entry(entries: Seq<AjaxResponseCourse>, c: CourseView) -> bool {
    exists|j: int|
        0 <= j < entries.len() && !entries[j].hidden
            && #[trigger] course_of(entries[j].fullname@, entries[j].viewurl@, entries[j].coursecategory@) == Some(c)
}

/// The course list the service's answer gives: the courses of the first
/// answer's entries that are not hidden, sorted by name (equal names keep
/// their order); an error when such an entry's view URL holds no `id=`.
pub open spec fn course_list_of(entries: Seq<AjaxResponseCourse>) -> Result<Seq<CourseView>, ErrorView> {
    match courses_of(entries) {
        Some(cs) => Ok(sort_by_key(cs, by_name())),
        None => Err(ErrorView::UNABLE_TO_PARSE_RESPONSE_TEXT("Couldnt parse course's visiturl for id"@)),
    }
}

fn clone_course(c: &Course) -> (out: Course)
    ensures
        out.deep_view() == c.deep_view(),
{
    Course { name: c.name.clone(), id: c.id.clone(), category: c.category.clone() }
}

/// Inserts `c` into the name-sorted `out` after every course whose name is
/// not greater.
fn insert_course(out: &mut Vec<Course>, c: Course)
    ensures
        final(out).deep_view() == insert_by_key(old(out).deep_view(), c.deep_view(), by_name()),
{
    let ghost ov = out.deep_view();
    let ghost key = by_name();
    let mut k: usize = 0;
    while k < out.len() && !lex_greater(out[k].name.as_str(), c.name.as_str())
        invariant
            k <= out@.len(),
            ov == out.deep_view(),
            key == by_name(),
            insert_index(ov, c.deep_view(), key, 0) == insert_index(ov, c.deep_view(), key, k as int),
        decreases out@.len() - k,
    {
        assert(ov[k as int] == out@[k as int].deep_view());
        assert(key(ov[k as int]) == out@[k as int].name@);
        assert(!lex_lt(key(c.deep_view()), key(ov[k as int])));
        k += 1;
    }
    proof {
        if k < out@.len() {
            assert(ov[k as int] == out@[k as int].deep_view());
            assert(key(ov[k as int]) == out@[k as int].name@);
            assert(lex_lt(key(c.deep_view()), key(ov[k as int])));
        }
    }
    out.insert(k, c);
    assert(out.deep_view() =~= ov.take(k as int).push(c.deep_view()) + ov.skip(k as int));
}

/// The course list of the service's answers (see [`course_list_of`]). The
/// caller makes sure there is at least one answer.
pub fn courses_from_ajax(data: &Vec<AjaxResponse>) -> (r: Result<Vec<Course>, ErrorResponse>)
    requires
        data@.len() > 0,
    ensures
        match r {
            Ok(v) => course_list_of(data@[0].data.courses@) == Ok::<Seq<CourseView>, ErrorView>(v.deep_view()),
            Err(e) => course_list_of(data@[0].data.courses@) == Err::<Seq<CourseView>, ErrorView>(e.deep_view()),
        },
{
    let entries = &data[0].data.courses;
    let ghost ev = entries@;
    let mut parsed: Vec<Course> = Vec::new();
    let mut i: usize = 0;
    assert(ev.take(0) =~= Seq::<AjaxResponseCourse>::empty());
    while i < entries.len()
        invariant
            i <= entries@.len(),
            ev == entries@,
            ev == data@[0].data.courses@,
            courses_of(ev.take(i as int)) == Some(parsed.deep_view()),
        decreases entries@.len() - i,
    {
        assert(ev.take(i + 1).drop_last() =~= ev.take(i as int));
        assert(ev.take(i + 1).last() == entries@[i as int]);
        if entries[i].hidden {
            i += 1;
            continue;
        }
        match Course::try_from_ajax(&entries[i]) {
            Ok(c) => {
                let ghost before = parsed.deep_view();
                parsed.push(c);
                assert(parsed.deep_view() =~= before.push(c.deep_view()));
            }
            Err(_) => {
                proof {
                    assert(courses_of(ev.take(i + 1)) is None);
                    lemma_courses_of_none_extends(ev, i as int + 1);
                    assert(course_list_of(ev) is Err);
                }
                return Err(ErrorResponse::UNABLE_TO_PARSE_RESPONSE_TEXT(
                    copy_str("Couldnt parse course's visiturl for id"),
                ));
            }
        }
        i += 1;
    }
    assert(ev.take(entries@.len() as int) =~= ev);
    let ghost key = by_name();
    let ghost pv = parsed.deep_view();
    let mut out: Vec<Course> = Vec::new();
    let mut j: usize = 0;
    assert(pv.take(0) =~= Seq::<CourseView>::empty());
    while j < parsed.len()
        invariant
            j <= parsed@.len(),
            pv == parsed.deep_view(),
            key == by_name(),
            out.deep_view() == sort_by_key(pv.take(j as int), key),
        decreases parsed@.len() - j,
    {
        let c = clone_course(&parsed[j]);
        assert(pv.take(j + 1).drop_last() =~= pv.take(j as int));
        assert(pv.take(j + 1).last() == c.deep_view());
        insert_course(&mut out, c);
        j += 1;
    }
    assert(pv.take(pv.len() as int) =~= pv);
    Ok(out)
}

proof fn lemma_courses_of_none_extends(ev: Seq<AjaxResponseCourse>, i: int)
    requires
        0 < i <= ev.len(),
        courses_of(ev.take(i)) is None,
    ensures
        courses_of(ev) is None,
    decreases ev.len() - i,
{
    if i == ev.len() {
        assert(ev.take(i) =~= ev);
    } else {
        assert(ev.take(i + 1).drop_last() =~= ev.take(i));
        lemma_courses_of_none_extends(ev, i + 1);
    }
}


proof fn lemma_courses_of_visible(entries: Seq<AjaxResponseCourse>)
    ensures
        courses_of(entries) matches Some(cs) ==> forall|k: int| 0 <= k < cs.len() ==> from_visible_entry(entries, #[trigger] cs[k]),
    decreases entries.len(),
{
    if entries.len() > 0 {
        let pre = entries.drop_last();
        lemma_courses_of_visible(pre);
        if let Some(cs) = courses_of(entries) {
            assert forall|k: int| 0 <= k < cs.len() implies from_visible_entry(entries, #[trigger] cs[k]) by {
                let last = entries.len() - 1;
                if !entries.last().hidden && k == cs.len() - 1 {
                    assert(course_of(entries[last].fullname@, entries[last].viewurl@, entries[last].coursecategory@) == Some(cs[k]));
                } else {
                    let pcs = courses_of(pre)->0;
                    assert(pcs[k] == cs[k]);
                    assert(from_visible_entry(pre, pcs[k]));
                    let j = choose|j: int|
                        0 <= j < pre.len() && !pre[j].hidden
                            && #[trigger] course_of(pre[j].fullname@, pre[j].viewurl@, pre[j].coursecategory@) == Some(pcs[k]);
                    assert(pre[j] == entries[j]);
                }
            }
        }
    }
}

/// The course list is sorted by name, holds exactly the courses of the
/// entries that are not hidden, and no course in it comes from a hidden
/// entry.
pub proof fn lemma_course_list_sorted(entries: Seq<AjaxResponseCourse>)
    ensures
        course_list_of(entries) matches Ok(cs) ==> sorted_by_key(cs, by_name())
            && cs.to_multiset() == courses_of(entries)->0.to_multiset()
            && forall|k: int| 0 <= k < cs.len() ==> from_visible_entry(entries, #[trigger] cs[k]),
{
    broadcast use vstd::seq_lib::group_to_multiset_ensures;

    if let Some(cs) = courses_of(entries) {
        lemma_sort_by_key_sorted(cs, by_name());
        lemma_sort_by_key_permutes(cs, by_name());
        lemma_courses_of_visible(entries);
        let sorted = sort_by_key(cs, by_name());
        assert forall|k: int| 0 <= k < sorted.len() implies from_visible_entry(entries, #[trigger] sorted[k]) by {
            assert(sorted.contains(sorted[k]));
            assert(sorted.to_multiset().count(sorted[k]) > 0);
            assert(cs.contains(sorted[k]));
            let i = choose|i: int| 0 <= i < cs.len() && cs[i] == sorted[k];
            assert(from_visible_entry(entries, cs[i]));
        }
    }
}

} // verus!
