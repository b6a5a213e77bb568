//! The "merkury" parser: a course page as a flat list of texts, links and
//! iframes.
use vstd::prelude::*;
use crate::dom::{page_first, select_first_in_page, 
    attr_of, document_tree, first_below, flags_for, is_element, name_is, node_attr,
    node_is_element, node_name_is, parse_document, select_first, selector_matches, DomNode,
    NodeData, NodeView, TreeView,
};
use crate::errors::{session_expired, ErrorResponse, ErrorView};
use crate::parsers::mercury::{get_trimmed_text, text_or_empty, trimmed_text};
use crate::text::{copy_str, has_prefix, starts_with, trim, trim_str};

verus! {

/// The name under which this parser is offered.
pub const NAME: &'static str = "merkury";

/// The parser that turns a course page into texts, links and iframes.
#[derive(Debug, PartialEq, Eq)]
pub struct MerkuryParser;

/// One piece of a course page.
#[derive(Debug, PartialEq, Eq)]
pub enum Resource {
    Text { text: String },
    Link { text: String, link: String },
    Iframe { src: String },
}

/// The mathematical value of a [`Resource`].
pub enum ResourceView {
    Text { text: Seq<char> },
    Link { text: Seq<char>, link: Seq<char> },
    Iframe { src: Seq<char> },
}

impl DeepView for Resource {
    type V = ResourceView;

    open spec fn deep_view(&self) -> ResourceView {
        match self {
            Resource::Text { text } => ResourceView::Text { text: text@ },
            Resource::Link { text, link } => ResourceView::Link { text: text@, link: link@ },
            Resource::Iframe { src } => ResourceView::Iframe { src: src@ },
        }
    }
}

/// A text node standing directly in a container, trimmed; nothing when it
/// is blank or not text.
pub open spec fn loose_text(t: TreeView) -> Seq<ResourceView> {
    match t.data {
        NodeView::Text { text } => if trim(text).len() > 0 {
            seq![ResourceView::Text { text: trim(text) }]
        } else {
            Seq::empty()
        },
        _ => Seq::empty(),
    }
}

/// The text of `t` as a one-element list, or nothing when it is blank.
pub open spec fn text_item(t: TreeView) -> Seq<ResourceView> {
    match trimmed_text(t) {
        Some(x) => seq![ResourceView::Text { text: x }],
        None => Seq::empty(),
    }
}

/// The resources of a list of sibling nodes, in order.
pub open spec fn children_resources(ts: Seq<TreeView>, f: Seq<bool>) -> Seq<ResourceView>
    decreases ts,
{
    if ts.len() == 0 {
        Seq::empty()
    } else {
        let c = ts[ts.len() - 1];
        children_resources(ts.drop_last(), f) + if is_element(c) {
            tree_resources(c, f)
        } else {
            loose_text(c)
        }
    }
}

/// The resources of an element's children; nothing for the "mark as done"
/// button (`data-action="toggle-manual-completion"`).
pub open spec fn explore_resources(t: TreeView, f: Seq<bool>) -> Seq<ResourceView>
    decreases t, 1int,
{
    if attr_of(t, "data-action"@) == Some("toggle-manual-completion"@) {
        Seq::empty()
    } else {
        children_resources(t.children, f)
    }
}

/// The resources of an element and its contents. `f` flags the elements
/// that `div, p, a` matches.
pub open spec fn tree_resources(t: TreeView, f: Seq<bool>) -> Seq<ResourceView>
    decreases t, 2int,
{
    if name_is(t, "style"@) {
        Seq::empty()
    } else if name_is(t, "p"@) {
        text_item(t)
    } else if name_is(t, "a"@) {
        let href = match attr_of(t, "href"@) {
            Some(h) => h,
            None => "#"@,
        };
        if has_prefix(href, "#"@) {
            text_item(t)
        } else {
            seq![ResourceView::Link { text: text_or_empty(t), link: href }]
        }
    } else if name_is(t, "iframe"@) {
        match attr_of(t, "src"@) {
            Some(x) => seq![ResourceView::Iframe { src: x }],
            None => Seq::empty(),
        }
    } else if name_is(t, "span"@) || name_is(t, "li"@) {
        if first_below(t, f) is Some {
            explore_resources(t, f)
        } else {
            text_item(t)
        }
    } else {
        explore_resources(t, f)
    }
}

/// What the parser makes of a course page: the resources of its first
/// `div.course-content`; a page without one is a session that has expired.
pub open spec fn merkury_result(html: Seq<char>) -> Result<Seq<ResourceView>, ErrorView> {
    match page_first(document_tree(html), selector_matches(html, "div.course-content"@)) {
        Some(content) => Ok(tree_resources(content, selector_matches(html, "div, p, a"@))),
        None => Err(ErrorView::AUTH_FAILED("Session expired"@)),
    }
}

fn push_resource(out: &mut Vec<Resource>, x: Resource)
    ensures
        final(out).deep_view() == old(out).deep_view() + seq![x.deep_view()],
{
    let ghost a = out.deep_view();
    out.push(x);
    assert(out.deep_view() =~= a + seq![x.deep_view()]);
}

fn append_resources(out: &mut Vec<Resource>, mut more: Vec<Resource>)
    ensures
        final(out).deep_view() == old(out).deep_view() + more.deep_view(),
{
    let ghost a = out.deep_view();
    let ghost b = more.deep_view();
    out.append(&mut more);
    assert(out.deep_view() =~= a + b);
}

fn text_item_exec(root: &DomNode) -> (out: Vec<Resource>)
    ensures
        out.deep_view() == text_item(root.deep_view()),
{
    let mut out: Vec<Resource> = Vec::new();
    match get_trimmed_text(root) {
        Some(text) => push_resource(&mut out, Resource::Text { text }),
        None => assert(out.deep_view() =~= Seq::<ResourceView>::empty()),
    }
    out
}

/// The resources of `root`'s children (see [`explore_resources`]).
fn try_explore_children(root: &DomNode, f: &Vec<bool>) -> (out: Vec<Resource>)
    ensures
        out.deep_view() == explore_resources(root.deep_view(), f@),
    decreases root, 1int,
{
    let mut out: Vec<Resource> = Vec::new();
    proof {
        reveal_strlit("toggle-manual-completion");
    }
    if let Some(action) = node_attr(root, "data-action") {
        if action == copy_str("toggle-manual-completion") {
            return out;
        }
    }
    let ghost fv = root.children.deep_view();
    assert(root.deep_view().children =~= fv);
    let mut i: usize = 0;
    assert(fv.take(0) =~= Seq::<TreeView>::empty());
    while i < root.children.len()
        invariant
            i <= root.children@.len(),
            fv == root.children.deep_view(),
            out.deep_view() == children_resources(fv.take(i as int), f@),
        decreases root.children@.len() - i,
    {
        let child = &root.children[i];
        assert(fv.take(i + 1).drop_last() =~= fv.take(i as int));
        assert(fv.take(i + 1)[i as int] == child.deep_view());
        assert(decreases_to!(root => root.children@[i as int]));
        if node_is_element(child) {
            let res = try_parse_html_tree(child, f);
            append_resources(&mut out, res);
        } else {
            match &child.data {
                NodeData::Text { text } => {
                    let trimmed = trim_str(text.as_str());
                    if !trimmed.as_str().is_empty() {
                        push_resource(&mut out, Resource::Text { text: trimmed });
                    } else {
                        assert(out.deep_view() =~= out.deep_view() + loose_text(child.deep_view()));
                    }
                }
                _ => {
                    assert(out.deep_view() =~= out.deep_view() + loose_text(child.deep_view()));
                }
            }
        }
        i += 1;
    }
    assert(fv.take(root.children@.len() as int) =~= fv);
    out
}

/// The resources of an element and its contents (see [`tree_resources`]).
fn try_parse_html_tree(root: &DomNode, f: &Vec<bool>) -> (out: Vec<Resource>)
    ensures
        out.deep_view() == tree_resources(root.deep_view(), f@),
    decreases root, 2int,
{
    let mut out: Vec<Resource> = Vec::new();
    if node_name_is(root, "style") {
        assert(out.deep_view() =~= Seq::<ResourceView>::empty());
        out
    } else if node_name_is(root, "p") {
        text_item_exec(root)
    } else if node_name_is(root, "a") {
        let href = match node_attr(root, "href") {
            Some(h) => h,
            None => copy_str("#"),
        };
        if starts_with(href.as_str(), "#") {
            text_item_exec(root)
        } else {
            let text = match get_trimmed_text(root) {
                Some(t) => t,
                None => String::new(),
            };
            push_resource(&mut out, Resource::Link { text, link: href });
            out
        }
    } else if node_name_is(root, "iframe") {
        match node_attr(root, "src") {
            Some(src) => push_resource(&mut out, Resource::Iframe { src }),
            None => assert(out.deep_view() =~= Seq::<ResourceView>::empty()),
        }
        out
    } else if node_name_is(root, "span") || node_name_is(root, "li") {
        if select_first(root, f).is_some() {
            try_explore_children(root, f)
        } else {
            text_item_exec(root)
        }
    } else {
        try_explore_children(root, f)
    }
}

/// Parses a course page into resources (see [`merkury_result`]).
pub fn try_parse(html_string: String) -> (r: Result<Vec<Resource>, ErrorResponse>)
    ensures
        r matches Ok(v) ==> merkury_result(html_string@) == Ok::<Seq<ResourceView>, ErrorView>(v.deep_view()),
        r matches Err(e) ==> merkury_result(html_string@) == Err::<Seq<ResourceView>, ErrorView>(e.deep_view()),
{
    let document = parse_document(html_string.as_str());
    let content_flags = flags_for(&document, "div.course-content");
    match select_first_in_page(&document.root, &content_flags) {
        Some(content) => {
            let blocks = flags_for(&document, "div, p, a");
            Ok(try_parse_html_tree(content, &blocks))
        }
        None => Err(session_expired()),
    }
}

impl MerkuryParser {
    /// Parses a course page into resources (see [`merkury_result`]).
    pub fn parse(&self, html_string: String) -> (r: Result<Vec<Resource>, ErrorResponse>)
        ensures
            r matches Ok(v) ==> merkury_result(html_string@) == Ok::<Seq<ResourceView>, ErrorView>(v.deep_view()),
            r matches Err(e) ==> merkury_result(html_string@) == Err::<Seq<ResourceView>, ErrorView>(e.deep_view()),
    {
        try_parse(html_string)
    }
}

} // verus!
