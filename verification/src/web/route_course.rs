//! `/course` and `/api/course` of the HTML front end: a course page read
//! into a list of titled, described resources.
use vstd::prelude::*;
use crate::dom::{page_first, page_select, select_all_in_page, select_first_in_page, 
    attr_of, document_tree, first_below, flags_for, has_class, node_attr, node_has_class,
    parse_document, select_all, select_below, select_first, selector_matches, text_content,
    text_of, texts, texts_in_tree, DomNode, TreeView,
};
use crate::text::{copy_str, has_prefix, replace, replace_all, starts_with};
use crate::parsers::mercury::course_url;
use crate::web::errors::{ErrorResponse, ErrorView};
use crate::web::routes::course::course_page_url;

verus! {

/// What a resource of a course page is.
#[allow(non_camel_case_types)]
#[derive(Debug, Clone, Copy, PartialEq, Eq, Structural)]
pub enum ResourceKind {
    TITLE,
    DESCRIPTION,
    CARD_TITLE,
    CARD_DESCRIPTION,
    RESOURCE_DESCRIPTION,
    FILE,
    URL,
    QUIZ,
    OTHER,
    INVALID,
}

/// A resource of a course page: its kind, its text pieces and, for an
/// activity, its id (`<module>$id=<n>`).
#[derive(Debug, PartialEq, Eq)]
pub struct Resource {
    pub kind: ResourceKind,
    pub data: Vec<String>,
    pub id: Option<String>,
}

/// The mathematical value of a [`Resource`].
pub struct ResourceView {
    pub kind: ResourceKind,
    pub data: Seq<Seq<char>>,
    pub id: Option<Seq<char>>,
}

impl DeepView for Resource {
    type V = ResourceView;

    open spec fn deep_view(&self) -> ResourceView {
        ResourceView { kind: self.kind, data: self.data.deep_view(), id: self.id.deep_view() }
    }
}

/// The pieces joined with `sep` between them (`[String]::join`).
pub open spec fn join(parts: Seq<Seq<char>>, sep: Seq<char>) -> Seq<char>
    decreases parts.len(),
{
    if parts.len() == 0 {
        Seq::empty()
    } else if parts.len() == 1 {
        parts[0]
    } else {
        join(parts.drop_last(), sep) + sep + parts.last()
    }
}

/// Joins the pieces with `sep` between them.
pub fn join_strings(parts: &Vec<String>, sep: &str) -> (out: String)
    ensures
        out@ == join(parts.deep_view(), sep@),
{
    let ghost pv = parts.deep_view();
    let mut out = String::new();
    let mut i: usize = 0;
    assert(pv.take(0) =~= Seq::<Seq<char>>::empty());
    while i < parts.len()
        invariant
            i <= parts@.len(),
            pv == parts.deep_view(),
            out@ == join(pv.take(i as int), sep@),
        decreases parts@.len() - i,
    {
        assert(pv.take(i + 1).drop_last() =~= pv.take(i as int));
        assert(pv.take(i + 1).last() == parts@[i as int]@);
        if i > 0 {
            out.append(sep);
        } else {
            assert(pv.take(1)[0] == parts@[0]@);
        }
        out.append(parts[i].as_str());
        i += 1;
    }
    assert(pv.take(parts@.len() as int) =~= pv);
    out
}

/// The HTML a resource is shown as: a link to `/view?id=..` for an
/// activity, otherwise a heading or a paragraph by its kind.
pub open spec fn resource_html(r: ResourceView) -> Seq<char> {
    match r.id {
        Some(id) => "<p><a target=\"_blank\" href=\"/view?id="@ + id + "\">"@ + join(r.data, Seq::empty()) + "</a></p>"@,
        None => match r.kind {
            ResourceKind::TITLE => "<h1>"@ + join(r.data, Seq::empty()) + "</h1>"@,
            ResourceKind::CARD_TITLE => "<h2>"@ + join(r.data, Seq::empty()) + "</h2>"@,
            ResourceKind::DESCRIPTION | ResourceKind::RESOURCE_DESCRIPTION => "<p>"@ + join(r.data, "<br/>"@) + "</p>"@,
            _ => "<p>"@ + join(r.data, Seq::empty()) + "</p>"@,
        },
    }
}

impl Resource {
    /// The HTML this resource is shown as (see [`resource_html`]).
    pub fn into_html_string(&self) -> (out: String)
        ensures
            out@ == resource_html(self.deep_view()),
    {
        proof {
            reveal_strlit("");
            assert(""@ =~= Seq::<char>::empty());
        }
        match &self.id {
            Some(id) => {
                let mut out = copy_str("<p><a target=\"_blank\" href=\"/view?id=");
                out.append(id.as_str());
                out.append("\">");
                let joined = join_strings(&self.data, "");
                out.append(joined.as_str());
                out.append("</a></p>");
                return out;
            }
            None => {}
        }
        let (open, sep, close) = match self.kind {
            ResourceKind::TITLE => ("<h1>", "", "</h1>"),
            ResourceKind::CARD_TITLE => ("<h2>", "", "</h2>"),
            ResourceKind::DESCRIPTION | ResourceKind::RESOURCE_DESCRIPTION => ("<p>", "<br/>", "</p>"),
            _ => ("<p>", "", "</p>"),
        };
        let mut out = copy_str(open);
        let joined = join_strings(&self.data, sep);
        out.append(joined.as_str());
        out.append(close);
        out
    }
}


// ------------------------------------------------------------------
// Reading a course page
// ------------------------------------------------------------------

/// The selector matches a course page needs.
pub struct CourseSelectors {
    pub contentwithoutlink: Seq<bool>,
    pub activityinstance: Seq<bool>,
    pub aalink: Seq<bool>,
    pub activity: Seq<bool>,
    pub paragraphs: Seq<bool>,
    pub h1: Seq<bool>,
    pub summary_not_card: Seq<bool>,
    pub cards: Seq<bool>,
    pub sectionname: Seq<bool>,
    pub summary: Seq<bool>,
    pub topics: Seq<bool>,
    pub sections: Seq<bool>,
    pub h3: Seq<bool>,
}

/// The selector matches of the course page `html`.
pub open spec fn course_selectors(html: Seq<char>) -> CourseSelectors {
    CourseSelectors {
        contentwithoutlink: selector_matches(html, ".contentwithoutlink"@),
        activityinstance: selector_matches(html, ".activityinstance"@),
        aalink: selector_matches(html, ".aalink"@),
        activity: selector_matches(html, ".activity"@),
        paragraphs: selector_matches(html, "p, li"@),
        h1: selector_matches(html, "h1"@),
        summary_not_card: selector_matches(html, ".summary:not(.card-text)"@),
        cards: selector_matches(html, ".card.section.main > div"@),
        sectionname: selector_matches(html, ".sectionname"@),
        summary: selector_matches(html, ".summary"@),
        topics: selector_matches(html, ".topics"@),
        sections: selector_matches(html, ".section.main"@),
        h3: selector_matches(html, "h3"@),
    }
}

/// The text nodes of the first match below `t` (`get_text`); `None` when
/// nothing matches.
pub open spec fn text_nodes_of_first(t: TreeView, flags: Seq<bool>) -> Option<Seq<Seq<char>>> {
    match first_below(t, flags) {
        Some(el) => Some(texts_in_tree(el)),
        None => None,
    }
}

/// The text nodes of the first match in the page whose tree is `root` (see
/// [`page_first`]); `None` when nothing matches.
pub open spec fn page_text_nodes(root: TreeView, flags: Seq<bool>) -> Option<Seq<Seq<char>>> {
    match page_first(root, flags) {
        Some(el) => Some(texts_in_tree(el)),
        None => None,
    }
}

/// The text of each `p` and `li` inside the first match in the page;
/// `None` when nothing matches.
pub open spec fn page_paragraph_texts(root: TreeView, flags: Seq<bool>, paragraphs: Seq<bool>) -> Option<Seq<Seq<char>>> {
    match page_first(root, flags) {
        Some(el) => Some(joined_texts(select_below(el, paragraphs))),
        None => None,
    }
}

/// The joined texts of a list of elements.
pub open spec fn joined_texts(ts: Seq<TreeView>) -> Seq<Seq<char>> {
    Seq::new(ts.len(), |i: int| text_of(ts[i]))
}

/// The text of each `p` and `li` inside the first match below `t`
/// (`list_text_in_child_paragraphs`); `None` when nothing matches.
pub open spec fn paragraph_texts_of_first(t: TreeView, flags: Seq<bool>, paragraphs: Seq<bool>) -> Option<Seq<Seq<char>>> {
    match first_below(t, flags) {
        Some(el) => Some(joined_texts(select_below(el, paragraphs))),
        None => None,
    }
}

/// The kind of an `.activity` element, by its first recognized class.
pub open spec fn activity_kind(t: TreeView) -> ResourceKind {
    if has_class(t, "label"@) {
        ResourceKind::RESOURCE_DESCRIPTION
    } else if has_class(t, "url"@) {
        ResourceKind::URL
    } else if has_class(t, "quiz"@) {
        ResourceKind::QUIZ
    } else if has_class(t, "resource"@) {
        ResourceKind::FILE
    } else {
        ResourceKind::OTHER
    }
}

/// The id of an activity from its link: the address without the module
/// prefix, with `/view.php?` turned into `$`.
pub open spec fn activity_id(href: Seq<char>) -> Seq<char> {
    replace_all(replace_all(href, "https://ekursy.put.poznan.pl/mod/"@, Seq::empty()), "/view.php?"@, "$"@)
}

/// The resource an `.activity` element stands for; `None` when its text is
/// missing.
pub open spec fn activity_resource(t: TreeView, s: CourseSelectors) -> Option<ResourceView> {
    let kind = activity_kind(t);
    let text = if kind == ResourceKind::RESOURCE_DESCRIPTION {
        paragraph_texts_of_first(t, s.contentwithoutlink, s.paragraphs)
    } else {
        text_nodes_of_first(t, s.activityinstance)
    };
    match text {
        None => None,
        Some(data) => Some(ResourceView {
            kind,
            data,
            id: match first_below(t, s.aalink) {
                Some(link) => match attr_of(link, "href"@) {
                    Some(href) => Some(activity_id(href)),
                    None => None,
                },
                None => None,
            },
        }),
    }
}

/// The resource for an activity that could not be read.
pub open spec fn invalid_resource() -> ResourceView {
    ResourceView { kind: ResourceKind::INVALID, data: seq!["Invalid resource"@], id: None }
}

/// The resources of a list of `.activity` elements.
pub open spec fn activities_of(ts: Seq<TreeView>, s: CourseSelectors) -> Seq<ResourceView>
    decreases ts.len(),
{
    if ts.len() == 0 {
        Seq::empty()
    } else {
        activities_of(ts.drop_last(), s) + seq![match activity_resource(ts.last(), s) {
            Some(r) => r,
            None => invalid_resource(),
        }]
    }
}

/// Every `.activity` element stands for exactly one resource, in order: one
/// that cannot be read is kept as an invalid resource, never dropped.
pub proof fn lemma_one_resource_per_activity(ts: Seq<TreeView>, s: CourseSelectors)
    ensures
        activities_of(ts, s).len() == ts.len(),
        forall|i: int| 0 <= i < ts.len() ==> #[trigger] activities_of(ts, s)[i] == match activity_resource(ts[i], s) {
            Some(r) => r,
            None => invalid_resource(),
        },
    decreases ts.len(),
{
    if ts.len() > 0 {
        lemma_one_resource_per_activity(ts.drop_last(), s);
        assert forall|i: int| 0 <= i < ts.len() implies #[trigger] activities_of(ts, s)[i] == match activity_resource(ts[i], s) {
            Some(r) => r,
            None => invalid_resource(),
        } by {
            if i < ts.len() - 1 {
                assert(ts.drop_last()[i] == ts[i]);
                assert(activities_of(ts, s)[i] == activities_of(ts.drop_last(), s)[i]);
            }
        }
    }
}

/// The error for a part of the page that is missing.
pub open spec fn missing(what: Seq<char>) -> ErrorView {
    ErrorView::REMOTE_SERVER_SENT_INVALID_DATA(what)
}

/// The resources of the cards `.card.section.main > div`: for each, its
/// title, its description and its activities.
pub open spec fn cards_of(cards: Seq<TreeView>, s: CourseSelectors) -> Result<Seq<ResourceView>, ErrorView>
    decreases cards.len(),
{
    if cards.len() == 0 {
        Ok(Seq::empty())
    } else {
        match cards_of(cards.drop_last(), s) {
            Err(e) => Err(e),
            Ok(before) => {
                let card = cards.last();
                match text_nodes_of_first(card, s.sectionname) {
                    None => Err(missing("card title not present"@)),
                    Some(title) => match text_nodes_of_first(card, s.summary) {
                        None => Err(missing("card desc not present"@)),
                        Some(desc) => Ok(before
                            + seq![
                                ResourceView { kind: ResourceKind::CARD_TITLE, data: title, id: None },
                                ResourceView { kind: ResourceKind::CARD_DESCRIPTION, data: desc, id: None },
                            ]
                            + activities_of(select_below(card, s.activity), s)),
                    },
                }
            },
        }
    }
}

/// The resources of the sections `.section.main`: for each, its `h3` title
/// and its activities.
pub open spec fn sections_of(sections: Seq<TreeView>, s: CourseSelectors) -> Result<Seq<ResourceView>, ErrorView>
    decreases sections.len(),
{
    if sections.len() == 0 {
        Ok(Seq::empty())
    } else {
        match sections_of(sections.drop_last(), s) {
            Err(e) => Err(e),
            Ok(before) => {
                let section = sections.last();
                match text_nodes_of_first(section, s.h3) {
                    None => Err(missing("title not present in section"@)),
                    Some(title) => Ok(before
                        + seq![ResourceView { kind: ResourceKind::CARD_TITLE, data: title, id: None }]
                        + activities_of(select_below(section, s.activity), s)),
                }
            },
        }
    }
}

/// What a course page says: its `h1` title, its description, its cards
/// and, when it has a `.topics` list, its sections.
pub open spec fn course_resources(html: Seq<char>) -> Result<Seq<ResourceView>, ErrorView> {
    let root = document_tree(html);
    let s = course_selectors(html);
    match page_text_nodes(root, s.h1) {
        None => Err(missing("H1 not present"@)),
        Some(h1) => match page_paragraph_texts(root, s.summary_not_card, s.paragraphs) {
            None => Err(missing("desc not present"@)),
            Some(desc) => {
                let head = seq![
                    ResourceView { kind: ResourceKind::TITLE, data: h1, id: None },
                    ResourceView { kind: ResourceKind::DESCRIPTION, data: desc, id: None },
                ];
                match cards_of(page_select(root, s.cards), s) {
                    Err(e) => Err(e),
                    Ok(cards) => if page_first(root, s.topics) is None {
                        Ok(head + cards)
                    } else {
                        match sections_of(page_select(root, s.sections), s) {
                            Err(e) => Err(e),
                            Ok(sections) => Ok(head + cards + sections),
                        }
                    },
                }
            },
        },
    }
}

struct CourseFlags {
    contentwithoutlink: Vec<bool>,
    activityinstance: Vec<bool>,
    aalink: Vec<bool>,
    activity: Vec<bool>,
    paragraphs: Vec<bool>,
    h1: Vec<bool>,
    summary_not_card: Vec<bool>,
    cards: Vec<bool>,
    sectionname: Vec<bool>,
    summary: Vec<bool>,
    topics: Vec<bool>,
    sections: Vec<bool>,
    h3: Vec<bool>,
}

impl CourseFlags {
    spec fn view_of(&self) -> CourseSelectors {
        CourseSelectors {
            contentwithoutlink: self.contentwithoutlink@,
            activityinstance: self.activityinstance@,
            aalink: self.aalink@,
            activity: self.activity@,
            paragraphs: self.paragraphs@,
            h1: self.h1@,
            summary_not_card: self.summary_not_card@,
            cards: self.cards@,
            sectionname: self.sectionname@,
            summary: self.summary@,
            topics: self.topics@,
            sections: self.sections@,
            h3: self.h3@,
        }
    }
}

/// The text nodes of the first flagged element below `node` (see
/// [`text_nodes_of_first`]).
pub fn get_text(node: &DomNode, flags: &Vec<bool>) -> (r: Option<Vec<String>>)
    ensures
        r.deep_view() == text_nodes_of_first(node.deep_view(), flags@),
{
    match select_first(node, flags) {
        Some(el) => Some(texts(el)),
        None => None,
    }
}

/// The joined text of each element of `els`.
fn texts_of_each(els: &Vec<&DomNode>) -> (out: Vec<String>)
    ensures
        out.deep_view() == joined_texts(els.deep_view()),
{
    let ghost ev = els.deep_view();
    let mut out: Vec<String> = Vec::new();
    let mut i: usize = 0;
    while i < els.len()
        invariant
            i <= els@.len(),
            ev == els.deep_view(),
            out.deep_view() =~= joined_texts(ev).take(i as int),
        decreases els@.len() - i,
    {
        let t = text_content(els[i]);
        let ghost before = out.deep_view();
        out.push(t);
        assert(joined_texts(ev).take(i + 1) =~= joined_texts(ev).take(i as int).push(text_of(ev[i as int])));
        assert(out.deep_view() =~= before.push(t@));
        i += 1;
    }
    out
}

/// The text of each paragraph inside the first flagged element below
/// `node` (see [`paragraph_texts_of_first`]).
pub fn list_text_in_child_paragraphs(node: &DomNode, flags: &Vec<bool>, paragraphs: &Vec<bool>) -> (r: Option<Vec<String>>)
    ensures
        r.deep_view() == paragraph_texts_of_first(node.deep_view(), flags@, paragraphs@),
{
    match select_first(node, flags) {
        Some(el) => {
            let ps = select_all(el, paragraphs);
            Some(texts_of_each(&ps))
        }
        None => None,
    }
}

fn page_paragraph_texts_exec(root: &DomNode, flags: &Vec<bool>, paragraphs: &Vec<bool>) -> (r: Option<Vec<String>>)
    ensures
        r.deep_view() == page_paragraph_texts(root.deep_view(), flags@, paragraphs@),
{
    match select_first_in_page(root, flags) {
        Some(el) => {
            let ps = select_all(el, paragraphs);
            Some(texts_of_each(&ps))
        }
        None => None,
    }
}

/// The kind of an `.activity` element (see [`activity_kind`]).
fn activity_kind_of(el: &DomNode) -> (k: ResourceKind)
    ensures
        k == activity_kind(el.deep_view()),
{
    if node_has_class(el, "label") {
        ResourceKind::RESOURCE_DESCRIPTION
    } else if node_has_class(el, "url") {
        ResourceKind::URL
    } else if node_has_class(el, "quiz") {
        ResourceKind::QUIZ
    } else if node_has_class(el, "resource") {
        ResourceKind::FILE
    } else {
        ResourceKind::OTHER
    }
}

/// The resource an `.activity` element stands for (see
/// [`activity_resource`]); an error when its text is missing.
fn construct_resource(el: &DomNode, f: &CourseFlags) -> (r: Result<Resource, ErrorResponse>)
    ensures
        match r {
            Ok(res) => activity_resource(el.deep_view(), f.view_of()) == Some(res.deep_view()),
            Err(e) => activity_resource(el.deep_view(), f.view_of()) is None
                && e.deep_view() == missing("invalid resource"@),
        },
{
    let kind = activity_kind_of(el);
    let text = if kind == ResourceKind::RESOURCE_DESCRIPTION {
        list_text_in_child_paragraphs(el, &f.contentwithoutlink, &f.paragraphs)
    } else {
        get_text(el, &f.activityinstance)
    };
    let data = match text {
        Some(d) => d,
        None => {
            return Err(ErrorResponse::REMOTE_SERVER_SENT_INVALID_DATA(copy_str("invalid resource")));
        }
    };
    proof {
        reveal_strlit("https://ekursy.put.poznan.pl/mod/");
        reveal_strlit("/view.php?");
        reveal_strlit("");
        assert(""@ =~= Seq::<char>::empty());
    }
    let id = match select_first(el, &f.aalink) {
        Some(link) => match node_attr(link, "href") {
            Some(href) => {
                let stripped = replace(href.as_str(), "https://ekursy.put.poznan.pl/mod/", "");
                Some(replace(stripped.as_str(), "/view.php?", "$"))
            }
            None => None,
        },
        None => None,
    };
    Ok(Resource { kind, data, id })
}

/// The resources of the `.activity` elements below `node` (see
/// [`activities_of`]); one that cannot be read stands as an invalid resource.
fn extract_resources(node: &DomNode, f: &CourseFlags) -> (r: Result<Vec<Resource>, ErrorResponse>)
    ensures
        r matches Ok(v) && v.deep_view() == activities_of(select_below(node.deep_view(), f.activity@), f.view_of()),
{
    let acts = select_all(node, &f.activity);
    let ghost av = acts.deep_view();
    let mut out: Vec<Resource> = Vec::new();
    let mut i: usize = 0;
    assert(av.take(0) =~= Seq::<TreeView>::empty());
    while i < acts.len()
        invariant
            i <= acts@.len(),
            av == acts.deep_view(),
            out.deep_view() == activities_of(av.take(i as int), f.view_of()),
        decreases acts@.len() - i,
    {
        assert(av.take(i + 1).drop_last() =~= av.take(i as int));
        assert(av.take(i + 1).last() == acts[i as int].deep_view());
        let ghost before = out.deep_view();
        let r = match construct_resource(acts[i], f) {
            Ok(r) => r,
            Err(_) => {
                let mut data: Vec<String> = Vec::new();
                data.push(copy_str("Invalid resource"));
                proof {
                    assert(data.deep_view() =~= seq!["Invalid resource"@]);
                }
                Resource { kind: ResourceKind::INVALID, data, id: None }
            }
        };
        out.push(r);
        assert(out.deep_view() =~= before + seq![r.deep_view()]);
        i += 1;
    }
    assert(av.take(acts@.len() as int) =~= av);
    Ok(out)
}

proof fn lemma_cards_err_extends(cv: Seq<TreeView>, s: CourseSelectors, i: int)
    requires
        0 < i <= cv.len(),
        cards_of(cv.take(i), s) is Err,
    ensures
        cards_of(cv, s) == cards_of(cv.take(i), s),
    decreases cv.len() - i,
{
    if i == cv.len() {
        assert(cv.take(i) =~= cv);
    } else {
        assert(cv.take(i + 1).drop_last() =~= cv.take(i));
        lemma_cards_err_extends(cv, s, i + 1);
    }
}

proof fn lemma_sections_err_extends(sv: Seq<TreeView>, s: CourseSelectors, i: int)
    requires
        0 < i <= sv.len(),
        sections_of(sv.take(i), s) is Err,
    ensures
        sections_of(sv, s) == sections_of(sv.take(i), s),
    decreases sv.len() - i,
{
    if i == sv.len() {
        assert(sv.take(i) =~= sv);
    } else {
        assert(sv.take(i + 1).drop_last() =~= sv.take(i));
        lemma_sections_err_extends(sv, s, i + 1);
    }
}

/// The resources of the cards (see [`cards_of`]).
fn cards_resources(cards: &Vec<&DomNode>, f: &CourseFlags) -> (r: Result<Vec<Resource>, ErrorResponse>)
    ensures
        match r {
            Ok(v) => cards_of(cards.deep_view(), f.view_of()) == Ok::<Seq<ResourceView>, ErrorView>(v.deep_view()),
            Err(e) => cards_of(cards.deep_view(), f.view_of()) == Err::<Seq<ResourceView>, ErrorView>(e.deep_view()),
        },
{
    let ghost cv = cards.deep_view();
    let ghost sv = f.view_of();
    let mut out: Vec<Resource> = Vec::new();
    let mut i: usize = 0;
    assert(cv.take(0) =~= Seq::<TreeView>::empty());
    assert(out.deep_view() =~= Seq::<ResourceView>::empty());
    while i < cards.len()
        invariant
            i <= cards@.len(),
            cv == cards.deep_view(),
            sv == f.view_of(),
            cards_of(cv.take(i as int), sv) == Ok::<Seq<ResourceView>, ErrorView>(out.deep_view()),
        decreases cards@.len() - i,
    {
        let card = cards[i];
        assert(cv.take(i + 1).drop_last() =~= cv.take(i as int));
        assert(cv.take(i + 1).last() == card.deep_view());
        let title = match get_text(card, &f.sectionname) {
            Some(t) => t,
            None => {
                let e = ErrorResponse::REMOTE_SERVER_SENT_INVALID_DATA(copy_str("card title not present"));
                proof {
                    lemma_cards_err_extends(cv, sv, i + 1);
                }
                return Err(e);
            }
        };
        let desc = match get_text(card, &f.summary) {
            Some(t) => t,
            None => {
                let e = ErrorResponse::REMOTE_SERVER_SENT_INVALID_DATA(copy_str("card desc not present"));
                proof {
                    lemma_cards_err_extends(cv, sv, i + 1);
                }
                return Err(e);
            }
        };
        let ghost before = out.deep_view();
        let t = Resource { kind: ResourceKind::CARD_TITLE, data: title, id: None };
        let d = Resource { kind: ResourceKind::CARD_DESCRIPTION, data: desc, id: None };
        let ghost tv = t.deep_view();
        let ghost dv = d.deep_view();
        out.push(t);
        out.push(d);
        let mut acts = match extract_resources(card, f) {
            Ok(v) => v,
            Err(e) => {
                return Err(e);
            }
        };
        let ghost actv = acts.deep_view();
        out.append(&mut acts);
        assert(out.deep_view() =~= before + seq![tv, dv] + actv);
        i += 1;
    }
    assert(cv.take(cards@.len() as int) =~= cv);
    Ok(out)
}

/// The resources of the sections (see [`sections_of`]).
fn sections_resources(sections: &Vec<&DomNode>, f: &CourseFlags) -> (r: Result<Vec<Resource>, ErrorResponse>)
    ensures
        match r {
            Ok(v) => sections_of(sections.deep_view(), f.view_of()) == Ok::<Seq<ResourceView>, ErrorView>(v.deep_view()),
            Err(e) => sections_of(sections.deep_view(), f.view_of()) == Err::<Seq<ResourceView>, ErrorView>(e.deep_view()),
        },
{
    let ghost sv_ = sections.deep_view();
    let ghost s = f.view_of();
    let mut out: Vec<Resource> = Vec::new();
    let mut i: usize = 0;
    assert(sv_.take(0) =~= Seq::<TreeView>::empty());
    assert(out.deep_view() =~= Seq::<ResourceView>::empty());
    while i < sections.len()
        invariant
            i <= sections@.len(),
            sv_ == sections.deep_view(),
            s == f.view_of(),
            sections_of(sv_.take(i as int), s) == Ok::<Seq<ResourceView>, ErrorView>(out.deep_view()),
        decreases sections@.len() - i,
    {
        let section = sections[i];
        assert(sv_.take(i + 1).drop_last() =~= sv_.take(i as int));
        assert(sv_.take(i + 1).last() == section.deep_view());
        let title = match get_text(section, &f.h3) {
            Some(t) => t,
            None => {
                let e = ErrorResponse::REMOTE_SERVER_SENT_INVALID_DATA(copy_str("title not present in section"));
                proof {
                    lemma_sections_err_extends(sv_, s, i + 1);
                }
                return Err(e);
            }
        };
        let ghost before = out.deep_view();
        let t = Resource { kind: ResourceKind::CARD_TITLE, data: title, id: None };
        let ghost tv = t.deep_view();
        out.push(t);
        let mut acts = match extract_resources(section, f) {
            Ok(v) => v,
            Err(e) => {
                return Err(e);
            }
        };
        let ghost actv = acts.deep_view();
        out.append(&mut acts);
        assert(out.deep_view() =~= before + seq![tv] + actv);
        i += 1;
    }
    assert(sv_.take(sections@.len() as int) =~= sv_);
    Ok(out)
}

/// Reads a course page into its resources (see [`course_resources`]).
pub fn parse_course_resources(html: &str) -> (r: Result<Vec<Resource>, ErrorResponse>)
    ensures
        match r {
            Ok(v) => course_resources(html@) == Ok::<Seq<ResourceView>, ErrorView>(v.deep_view()),
            Err(e) => course_resources(html@) == Err::<Seq<ResourceView>, ErrorView>(e.deep_view()),
        },
{
    let document = parse_document(html);
    let f = CourseFlags {
        contentwithoutlink: flags_for(&document, ".contentwithoutlink"),
        activityinstance: flags_for(&document, ".activityinstance"),
        aalink: flags_for(&document, ".aalink"),
        activity: flags_for(&document, ".activity"),
        paragraphs: flags_for(&document, "p, li"),
        h1: flags_for(&document, "h1"),
        summary_not_card: flags_for(&document, ".summary:not(.card-text)"),
        cards: flags_for(&document, ".card.section.main > div"),
        sectionname: flags_for(&document, ".sectionname"),
        summary: flags_for(&document, ".summary"),
        topics: flags_for(&document, ".topics"),
        sections: flags_for(&document, ".section.main"),
        h3: flags_for(&document, "h3"),
    };
    assert(f.view_of() == course_selectors(html@));
    let h1 = match select_first_in_page(&document.root, &f.h1) {
        Some(el) => texts(el),
        None => {
            return Err(ErrorResponse::REMOTE_SERVER_SENT_INVALID_DATA(copy_str("H1 not present")));
        }
    };
    let desc = match page_paragraph_texts_exec(&document.root, &f.summary_not_card, &f.paragraphs) {
        Some(t) => t,
        None => {
            return Err(ErrorResponse::REMOTE_SERVER_SENT_INVALID_DATA(copy_str("desc not present")));
        }
    };
    let mut out: Vec<Resource> = Vec::new();
    let t = Resource { kind: ResourceKind::TITLE, data: h1, id: None };
    let d = Resource { kind: ResourceKind::DESCRIPTION, data: desc, id: None };
    let ghost head = seq![t.deep_view(), d.deep_view()];
    out.push(t);
    out.push(d);
    assert(out.deep_view() =~= head);
    let card_nodes = select_all_in_page(&document.root, &f.cards);
    let mut cards = match cards_resources(&card_nodes, &f) {
        Ok(v) => v,
        Err(e) => {
            return Err(e);
        }
    };
    let ghost cardv = cards.deep_view();
    out.append(&mut cards);
    assert(out.deep_view() =~= head + cardv);
    if select_first_in_page(&document.root, &f.topics).is_none() {
        return Ok(out);
    }
    let section_nodes = select_all_in_page(&document.root, &f.sections);
    let mut sections = match sections_resources(&section_nodes, &f) {
        Ok(v) => v,
        Err(e) => {
            return Err(e);
        }
    };
    let ghost secv = sections.deep_view();
    out.append(&mut sections);
    assert(out.deep_view() =~= head + cardv + secv);
    Ok(out)
}

/// What a fetch of a course page gives: when it did not end on the
/// course's own address (`final_url`), the session has expired; when its
/// body could not be read (`None`), the answer is invalid data; otherwise the
/// resources of the page.
pub open spec fn course_page_result(final_url: Seq<char>, course_id: Seq<char>, page: Option<Seq<char>>) -> Result<Seq<ResourceView>, ErrorView> {
    if !has_prefix(final_url, course_url(course_id)) {
        Err(ErrorView::AUTH_FAILED("Session expired"@))
    } else {
        match page {
            None => Err(ErrorView::REMOTE_SERVER_SENT_INVALID_DATA("ekursy course response couldnt be parsed"@)),
            Some(html) => course_resources(html),
        }
    }
}

/// Reads a fetched course page (see [`course_page_result`]).
pub fn get_resource_list(final_url: &str, course_id: &str, page: Option<&str>) -> (r: Result<Vec<Resource>, ErrorResponse>)
    ensures
        match r {
            Ok(v) => course_page_result(final_url@, course_id@, match page { Some(p) => Some(p@), None => None }) == Ok::<Seq<ResourceView>, ErrorView>(v.deep_view()),
            Err(e) => course_page_result(final_url@, course_id@, match page { Some(p) => Some(p@), None => None }) == Err::<Seq<ResourceView>, ErrorView>(e.deep_view()),
        },
{
    let url = course_page_url(course_id);
    if !starts_with(final_url, url.as_str()) {
        return Err(ErrorResponse::AUTH_FAILED(copy_str("Session expired")));
    }
    match page {
        None => Err(ErrorResponse::REMOTE_SERVER_SENT_INVALID_DATA(copy_str("ekursy course response couldnt be parsed"))),
        Some(html) => parse_course_resources(html),
    }
}

/// The body of the `/course` page: a log-out link, then each resource.
pub open spec fn course_content(rs: Seq<ResourceView>) -> Seq<char>
    decreases rs.len(),
{
    if rs.len() == 0 {
        "<a href=\"/logout\">log out</a><br/><br/>"@
    } else {
        course_content(rs.drop_last()) + resource_html(rs.last())
    }
}

/// The body of the `/course` page (see [`course_content`]).
pub fn course_content_html(resources: &Vec<Resource>) -> (out: String)
    ensures
        out@ == course_content(resources.deep_view()),
{
    let ghost rv = resources.deep_view();
    let mut out = copy_str("<a href=\"/logout\">log out</a><br/><br/>");
    let mut i: usize = 0;
    assert(rv.take(0) =~= Seq::<ResourceView>::empty());
    while i < resources.len()
        invariant
            i <= resources@.len(),
            rv == resources.deep_view(),
            out@ == course_content(rv.take(i as int)),
        decreases resources@.len() - i,
    {
        assert(rv.take(i + 1).drop_last() =~= rv.take(i as int));
        assert(rv.take(i + 1).last() == resources@[i as int].deep_view());
        let h = resources[i].into_html_string();
        out.append(h.as_str());
        i += 1;
    }
    assert(rv.take(resources@.len() as int) =~= rv);
    out
}


/// The kind of each readable activity of a list follows its classes, the
/// first that applies winning: `label` is a description, then `url` a link,
/// `quiz` a quiz, `resource` a file, and anything else is `OTHER`; an
/// activity that cannot be read is `INVALID`.
pub proof fn lemma_activity_kinds(ts: Seq<TreeView>, s: CourseSelectors)
    ensures
        forall|i: int| 0 <= i < ts.len() ==> {
            let t = ts[i];
            let k = (#[trigger] activities_of(ts, s)[i]).kind;
            &&& activity_resource(t, s) is None ==> k == ResourceKind::INVALID
            &&& activity_resource(t, s) is Some ==> {
                &&& has_class(t, "label"@) ==> k == ResourceKind::RESOURCE_DESCRIPTION
                &&& !has_class(t, "label"@) && has_class(t, "url"@) ==> k == ResourceKind::URL
                &&& !has_class(t, "label"@) && !has_class(t, "url"@) && has_class(t, "quiz"@) ==> k == ResourceKind::QUIZ
                &&& !has_class(t, "label"@) && !has_class(t, "url"@) && !has_class(t, "quiz"@)
                    && has_class(t, "resource"@) ==> k == ResourceKind::FILE
                &&& !has_class(t, "label"@) && !has_class(t, "url"@) && !has_class(t, "quiz"@)
                    && !has_class(t, "resource"@) ==> k == ResourceKind::OTHER
            }
        },
{
    lemma_one_resource_per_activity(ts, s);
}

} // verus!
