//! The "mercury" parser: a course page as a flat list of page fragments
//! (captions, texts, links, files behind the proxy, iframes, activities,
//! forums and section separators).
use vstd::prelude::*;
use crate::dom::{is_match, matches_in_forest, name_of, matches_in_tree, page_first, select_first_in_page, 
    attr_of, first_below, has_class, is_element, name_is, node_attr, node_has_class,
    node_is_element, node_name_is, parse_document, flags_for, select_first, text_content,
    text_of, DomNode, NodeData, NodeView, TreeView, document_tree, selector_matches,
};
use crate::errors::{session_expired, ErrorResponse, ErrorView};
use crate::text::{
    ascii_lower, before_char, has_prefix, prefix_before_char, replace, replace_all, split, split_on,
    starts_with, trim, trim_str, copy_str,
};

verus! {

/// The name under which this parser is offered.
pub const NAME: &'static str = "mercury";

/// The parser that turns a course page into [`PageFragment`]s.
#[derive(Debug, PartialEq, Eq)]
pub struct MercuryParser;

/// One piece of a course page.
#[derive(Debug, PartialEq, Eq)]
pub enum PageFragment {
    Text { text: String },
    /// Text that stood directly in a container; serialized as `"text"` too.
    OrphanText { text: String },
    Caption { text: String },
    Link { text: String, link: String },
    Proxy { text: String, link: String },
    Iframe { src: String },
    Resource { text: String, id: String, kind: String },
    Forum { text: String, id: String },
    SectionSeparator,
}

/// The mathematical value of a [`PageFragment`].
pub enum FragmentView {
    Text { text: Seq<char> },
    OrphanText { text: Seq<char> },
    Caption { text: Seq<char> },
    Link { text: Seq<char>, link: Seq<char> },
    Proxy { text: Seq<char>, link: Seq<char> },
    Iframe { src: Seq<char> },
    Resource { text: Seq<char>, id: Seq<char>, kind: Seq<char> },
    Forum { text: Seq<char>, id: Seq<char> },
    SectionSeparator,
}

impl DeepView for PageFragment {
    type V = FragmentView;

    open spec fn deep_view(&self) -> FragmentView {
        match self {
            PageFragment::Text { text } => FragmentView::Text { text: text@ },
            PageFragment::OrphanText { text } => FragmentView::OrphanText { text: text@ },
            PageFragment::Caption { text } => FragmentView::Caption { text: text@ },
            PageFragment::Link { text, link } => FragmentView::Link { text: text@, link: link@ },
            PageFragment::Proxy { text, link } => FragmentView::Proxy { text: text@, link: link@ },
            PageFragment::Iframe { src } => FragmentView::Iframe { src: src@ },
            PageFragment::Resource { text, id, kind } => FragmentView::Resource { text: text@, id: id@, kind: kind@ },
            PageFragment::Forum { text, id } => FragmentView::Forum { text: text@, id: id@ },
            PageFragment::SectionSeparator => FragmentView::SectionSeparator,
        }
    }
}

/// The trimmed text of a subtree, `None` when it is empty.
pub open spec fn trimmed_text(t: TreeView) -> Option<Seq<char>> {
    let s = trim(text_of(t));
    if s.len() == 0 { None } else { Some(s) }
}

/// The trimmed text, or the empty string.
pub open spec fn text_or_empty(t: TreeView) -> Seq<char> {
    match trimmed_text(t) {
        Some(s) => s,
        None => Seq::empty(),
    }
}

/// The trimmed text of `node`, `None` when it is empty.
pub fn get_trimmed_text(node: &DomNode) -> (r: Option<String>)
    ensures
        r matches Some(s) ==> trimmed_text(node.deep_view()) == Some(s@),
        r is None ==> trimmed_text(node.deep_view()) is None,
{
    let all = text_content(node);
    let t = trim_str(all.as_str());
    if t.as_str().is_empty() {
        None
    } else {
        Some(t)
    }
}

fn text_or_default(node: &DomNode) -> (s: String)
    ensures
        s@ == text_or_empty(node.deep_view()),
{
    match get_trimmed_text(node) {
        Some(s) => s,
        None => String::new(),
    }
}


/// The fragment an `<a>` element stands for, if any: in-page anchors give
/// their text, profile and course links nothing, files go through the proxy,
/// forums and activities are recognized by their URL, anything else is a link.
pub open spec fn a_tag_fragment(t: TreeView) -> Option<FragmentView> {
    let href = match attr_of(t, "href"@) {
        Some(h) => h,
        None => "#"@,
    };
    if has_prefix(href, "#"@) {
        match trimmed_text(t) {
            Some(s) => Some(FragmentView::Text { text: s }),
            None => None,
        }
    } else if has_prefix(href, "https://ekursy.put.poznan.pl/user"@) {
        None
    } else if has_prefix(href, "https://ekursy.put.poznan.pl/course"@) {
        None
    } else if !has_prefix(href, "https://ekursy.put.poznan.pl/mod/"@) {
        if has_prefix(href, "https://ekursy.put.poznan.pl/pluginfile.php"@) {
            Some(FragmentView::Proxy {
                text: text_or_empty(t),
                link: replace_all(href, "https://ekursy.put.poznan.pl/"@, Seq::empty()),
            })
        } else {
            Some(FragmentView::Link { text: text_or_empty(t), link: href })
        }
    } else if has_prefix(href, "https://ekursy.put.poznan.pl/mod/forum/view.php?id="@) {
        Some(FragmentView::Forum {
            text: text_or_empty(t),
            id: before_char(
                replace_all(href, "https://ekursy.put.poznan.pl/mod/forum/view.php?id="@, Seq::empty()),
                '&',
            ),
        })
    } else {
        let parts = split_on(
            replace_all(href, "https://ekursy.put.poznan.pl/mod/"@, Seq::empty()),
            "/view.php?id="@,
        );
        if parts.len() != 2 {
            Some(FragmentView::Link { text: text_or_empty(t), link: href })
        } else {
            Some(FragmentView::Resource { text: text_or_empty(t), id: parts[1], kind: parts[0] })
        }
    }
}

/// The fragment an `<a>` element stands for (see [`a_tag_fragment`]).
pub fn parse_a_tag(a_tag: &DomNode) -> (r: Option<PageFragment>)
    ensures
        r matches Some(f) ==> a_tag_fragment(a_tag.deep_view()) == Some(f.deep_view()),
        r is None ==> a_tag_fragment(a_tag.deep_view()) is None,
{
    proof {
        reveal_strlit("");
        reveal_strlit("https://ekursy.put.poznan.pl/");
        reveal_strlit("https://ekursy.put.poznan.pl/mod/");
        reveal_strlit("https://ekursy.put.poznan.pl/mod/forum/view.php?id=");
        reveal_strlit("/view.php?id=");
        assert(""@ =~= Seq::<char>::empty());
    }
    let href = match node_attr(a_tag, "href") {
        Some(h) => h,
        None => copy_str("#"),
    };
    if starts_with(href.as_str(), "#") {
        return match get_trimmed_text(a_tag) {
            Some(text) => Some(PageFragment::Text { text }),
            None => None,
        };
    }
    if starts_with(href.as_str(), "https://ekursy.put.poznan.pl/user") {
        return None;
    }
    if starts_with(href.as_str(), "https://ekursy.put.poznan.pl/course") {
        return None;
    }
    if !starts_with(href.as_str(), "https://ekursy.put.poznan.pl/mod/") {
        if starts_with(href.as_str(), "https://ekursy.put.poznan.pl/pluginfile.php") {
            let link = replace(href.as_str(), "https://ekursy.put.poznan.pl/", "");
            return Some(PageFragment::Proxy { text: text_or_default(a_tag), link });
        }
        return Some(PageFragment::Link { text: text_or_default(a_tag), link: href });
    }
    if starts_with(href.as_str(), "https://ekursy.put.poznan.pl/mod/forum/view.php?id=") {
        let id = replace(href.as_str(), "https://ekursy.put.poznan.pl/mod/forum/view.php?id=", "");
        let id = prefix_before_char(id.as_str(), '&');
        return Some(PageFragment::Forum { text: text_or_default(a_tag), id });
    }
    let resource_suffix = replace(href.as_str(), "https://ekursy.put.poznan.pl/mod/", "");
    let resource_data = split(resource_suffix.as_str(), "/view.php?id=");
    if resource_data.len() != 2 {
        return Some(PageFragment::Link { text: text_or_default(a_tag), link: href });
    }
    assert(resource_data.deep_view()[0] == resource_data@[0]@);
    assert(resource_data.deep_view()[1] == resource_data@[1]@);
    Some(PageFragment::Resource {
        text: text_or_default(a_tag),
        id: resource_data[1].clone(),
        kind: resource_data[0].clone(),
    })
}


// ------------------------------------------------------------------
// Walking the content tree
// ------------------------------------------------------------------

/// Elements with one of these classes are left out with all they contain.
pub open spec fn is_hidden(t: TreeView) -> bool {
    has_class(t, "accesshide"@) || has_class(t, "sr-only"@) || has_class(t, "fa-sr-only"@)
        || has_class(t, "collapseall"@) || has_class(t, "expandall"@)
        || has_class(t, "icons-collapse-expand"@)
        || has_class(t, "local-accessibility-buttoncontainer"@) || has_class(t, "readbtn"@)
        || has_class(t, "local-accessibility-panel"@)
}

/// A text node standing directly in a container, trimmed; nothing when it
/// is blank or not text.
pub open spec fn orphan_of(t: TreeView) -> Seq<FragmentView> {
    match t.data {
        NodeView::Text { text } => if trim(text).len() > 0 {
            seq![FragmentView::OrphanText { text: trim(text) }]
        } else {
            Seq::empty()
        },
        _ => Seq::empty(),
    }
}

/// A plain text fragment becomes a caption; others stay as they are.
pub open spec fn to_caption(f: FragmentView) -> FragmentView {
    match f {
        FragmentView::Text { text } => FragmentView::Caption { text },
        other => other,
    }
}

/// The fragments of a list of sibling nodes, in order.
pub open spec fn explore_forest(ts: Seq<TreeView>, f: Seq<bool>) -> Seq<FragmentView>
    decreases ts,
{
    if ts.len() == 0 {
        Seq::empty()
    } else {
        let c = ts[ts.len() - 1];
        explore_forest(ts.drop_last(), f) + if is_element(c) {
            fragments_tree(c, f)
        } else {
            orphan_of(c)
        }
    }
}

/// The fragments of an element and its contents. `f` flags the elements
/// that `div, p, a, ul` matches: a `p`, `span` or `li` holding one of them
/// is explored, otherwise it stands for its text.
pub open spec fn fragments_tree(t: TreeView, f: Seq<bool>) -> Seq<FragmentView>
    decreases t,
{
    if is_hidden(t) {
        Seq::empty()
    } else {
        let sep = if has_class(t, "section"@) && has_class(t, "main"@) {
            seq![FragmentView::SectionSeparator]
        } else {
            Seq::empty()
        };
        if has_class(t, "sectionname"@) {
            sep + match trimmed_text(t) {
                Some(x) => seq![FragmentView::Caption { text: x }],
                None => Seq::empty(),
            }
        } else if name_is(t, "button"@) || name_is(t, "style"@) {
            sep
        } else if name_is(t, "a"@) {
            sep + match a_tag_fragment(t) {
                Some(x) => seq![x],
                None => Seq::empty(),
            }
        } else if name_is(t, "iframe"@) {
            sep + match attr_of(t, "src"@) {
                Some(x) => seq![FragmentView::Iframe { src: x }],
                None => Seq::empty(),
            }
        } else if name_is(t, "p"@) || name_is(t, "span"@) || name_is(t, "li"@) {
            sep + if first_below(t, f) is Some {
                explore_forest(t.children, f)
            } else {
                match trimmed_text(t) {
                    Some(x) => seq![FragmentView::Text { text: x }],
                    None => Seq::empty(),
                }
            }
        } else if name_is(t, "h1"@) || name_is(t, "h2"@) || name_is(t, "h3"@) || name_is(t, "h4"@) {
            sep + explore_forest(t.children, f).map_values(|x: FragmentView| to_caption(x))
        } else {
            sep + explore_forest(t.children, f)
        }
    }
}

/// A copy of a fragment.
pub fn clone_fragment(x: &PageFragment) -> (out: PageFragment)
    ensures
        out.deep_view() == x.deep_view(),
{
    match x {
        PageFragment::Text { text } => PageFragment::Text { text: text.clone() },
        PageFragment::OrphanText { text } => PageFragment::OrphanText { text: text.clone() },
        PageFragment::Caption { text } => PageFragment::Caption { text: text.clone() },
        PageFragment::Link { text, link } => PageFragment::Link { text: text.clone(), link: link.clone() },
        PageFragment::Proxy { text, link } => PageFragment::Proxy { text: text.clone(), link: link.clone() },
        PageFragment::Iframe { src } => PageFragment::Iframe { src: src.clone() },
        PageFragment::Resource { text, id, kind } => PageFragment::Resource {
            text: text.clone(),
            id: id.clone(),
            kind: kind.clone(),
        },
        PageFragment::Forum { text, id } => PageFragment::Forum { text: text.clone(), id: id.clone() },
        PageFragment::SectionSeparator => PageFragment::SectionSeparator,
    }
}

fn append_all(out: &mut Vec<PageFragment>, mut more: Vec<PageFragment>)
    ensures
        final(out).deep_view() == old(out).deep_view() + more.deep_view(),
{
    let ghost a = out.deep_view();
    let ghost b = more.deep_view();
    out.append(&mut more);
    assert(out.deep_view() =~= a + b);
}

fn class_hidden(root: &DomNode) -> (b: bool)
    ensures
        b == is_hidden(root.deep_view()),
{
    node_has_class(root, "accesshide") || node_has_class(root, "sr-only")
        || node_has_class(root, "fa-sr-only") || node_has_class(root, "collapseall")
        || node_has_class(root, "expandall") || node_has_class(root, "icons-collapse-expand")
        || node_has_class(root, "local-accessibility-buttoncontainer")
        || node_has_class(root, "readbtn") || node_has_class(root, "local-accessibility-panel")
}

/// The fragments of `root`'s children (see [`explore_forest`]).
fn try_explore_children(root: &DomNode, f: &Vec<bool>) -> (out: Vec<PageFragment>)
    ensures
        out.deep_view() == explore_forest(root.deep_view().children, f@),
    decreases root, 0int,
{
    let ghost fv = root.children.deep_view();
    assert(root.deep_view().children =~= fv);
    let mut out: Vec<PageFragment> = Vec::new();
    let mut i: usize = 0;
    assert(fv.take(0) =~= Seq::<TreeView>::empty());
    while i < root.children.len()
        invariant
            i <= root.children@.len(),
            fv == root.children.deep_view(),
            out.deep_view() == explore_forest(fv.take(i as int), f@),
        decreases root.children@.len() - i,
    {
        let child = &root.children[i];
        assert(fv.take(i + 1).drop_last() =~= fv.take(i as int));
        assert(fv.take(i + 1)[i as int] == child.deep_view());
        assert(decreases_to!(root => root.children@[i as int]));
        if node_is_element(child) {
            let res = try_parse_html_tree(child, f);
            append_all(&mut out, res);
        } else {
            match &child.data {
                NodeData::Text { text } => {
                    let trimmed = trim_str(text.as_str());
                    if !trimmed.as_str().is_empty() {
                        let ghost before = out.deep_view();
                        out.push(PageFragment::OrphanText { text: trimmed });
                        assert(out.deep_view() =~= before + orphan_of(child.deep_view()));
                    } else {
                        assert(out.deep_view() =~= out.deep_view() + orphan_of(child.deep_view()));
                    }
                }
                _ => {
                    assert(out.deep_view() =~= out.deep_view() + orphan_of(child.deep_view()));
                }
            }
        }
        i += 1;
    }
    assert(fv.take(root.children@.len() as int) =~= fv);
    out
}

fn push_one(out: &mut Vec<PageFragment>, x: PageFragment)
    ensures
        final(out).deep_view() == old(out).deep_view() + seq![x.deep_view()],
{
    let ghost a = out.deep_view();
    out.push(x);
    assert(out.deep_view() =~= a + seq![x.deep_view()]);
}

fn captions(v: Vec<PageFragment>) -> (out: Vec<PageFragment>)
    ensures
        out.deep_view() == v.deep_view().map_values(|x: FragmentView| to_caption(x)),
{
    let mut out: Vec<PageFragment> = Vec::new();
    let mut i: usize = 0;
    while i < v.len()
        invariant
            i <= v@.len(),
            out.deep_view() == v.deep_view().take(i as int).map_values(|x: FragmentView| to_caption(x)),
        decreases v@.len() - i,
    {
        let c = match &v[i] {
            PageFragment::Text { text } => PageFragment::Caption { text: text.clone() },
            other => clone_fragment(other),
        };
        let ghost before = out.deep_view();
        assert(v.deep_view()[i as int] == v@[i as int].deep_view());
        assert(c.deep_view() == to_caption(v.deep_view()[i as int]));
        out.push(c);
        assert(out.deep_view() =~= before.push(c.deep_view()));
        assert(out.deep_view() =~= v.deep_view().take(i + 1).map_values(|x: FragmentView| to_caption(x)));
        i += 1;
    }
    assert(v.deep_view().take(v@.len() as int) =~= v.deep_view());
    out
}

/// The fragments of an element and its contents (see [`fragments_tree`]).
fn try_parse_html_tree(root: &DomNode, f: &Vec<bool>) -> (out: Vec<PageFragment>)
    ensures
        out.deep_view() == fragments_tree(root.deep_view(), f@),
    decreases root, 1int,
{
    let mut out: Vec<PageFragment> = Vec::new();
    if class_hidden(root) {
        return out;
    }
    if node_has_class(root, "section") && node_has_class(root, "main") {
        out.push(PageFragment::SectionSeparator);
    }
    let ghost sep = out.deep_view();
    assert(sep =~= (if has_class(root.deep_view(), "section"@) && has_class(root.deep_view(), "main"@) {
        seq![FragmentView::SectionSeparator]
    } else {
        Seq::empty()
    }));
    if node_has_class(root, "sectionname") {
        match get_trimmed_text(root) {
            Some(text) => push_one(&mut out, PageFragment::Caption { text }),
            None => assert(out.deep_view() =~= sep + Seq::empty()),
        }
        return out;
    }
    if node_name_is(root, "button") || node_name_is(root, "style") {
    } else if node_name_is(root, "a") {
        match parse_a_tag(root) {
            Some(fragment) => push_one(&mut out, fragment),
            None => assert(out.deep_view() =~= sep + Seq::empty()),
        }
    } else if node_name_is(root, "iframe") {
        match node_attr(root, "src") {
            Some(src) => push_one(&mut out, PageFragment::Iframe { src }),
            None => assert(out.deep_view() =~= sep + Seq::empty()),
        }
    } else if node_name_is(root, "p") || node_name_is(root, "span") || node_name_is(root, "li") {
        let has_block = select_first(root, f).is_some();
        if has_block {
            let res = try_explore_children(root, f);
            append_all(&mut out, res);
        } else {
            match get_trimmed_text(root) {
                Some(text) => push_one(&mut out, PageFragment::Text { text }),
                None => assert(out.deep_view() =~= sep + Seq::empty()),
            }
        }
    } else if node_name_is(root, "h1") || node_name_is(root, "h2") || node_name_is(root, "h3")
        || node_name_is(root, "h4") {
        let res = try_explore_children(root, f);
        let capital_res = captions(res);
        append_all(&mut out, capital_res);
    } else {
        let res = try_explore_children(root, f);
        append_all(&mut out, res);
    }
    out
}


// ------------------------------------------------------------------
// Merging orphan texts
// ------------------------------------------------------------------

/// Adds `x` after `out`: an orphan text that follows an orphan text is
/// joined to it with a space, everything else is appended.
pub open spec fn merge_step(out: Seq<FragmentView>, x: FragmentView) -> Seq<FragmentView> {
    match x {
        FragmentView::OrphanText { text } => if out.len() > 0 {
            match out.last() {
                FragmentView::OrphanText { text: prev } => out.drop_last().push(
                    FragmentView::OrphanText { text: prev + seq![' '] + text },
                ),
                _ => out.push(x),
            }
        } else {
            out.push(x)
        },
        _ => out.push(x),
    }
}

/// The fragments with each run of consecutive orphan texts joined into one.
pub open spec fn merged(dirty: Seq<FragmentView>) -> Seq<FragmentView>
    decreases dirty.len(),
{
    if dirty.len() == 0 {
        Seq::empty()
    } else {
        merge_step(merged(dirty.drop_last()), dirty.last())
    }
}

/// Joins each run of consecutive orphan texts into one, separated by spaces.
pub fn merge_orphans(dirty: Vec<PageFragment>) -> (out: Vec<PageFragment>)
    ensures
        out.deep_view() == merged(dirty.deep_view()),
{
    let ghost dv = dirty.deep_view();
    let mut out: Vec<PageFragment> = Vec::new();
    let mut i: usize = 0;
    assert(dv.take(0) =~= Seq::<FragmentView>::empty());
    while i < dirty.len()
        invariant
            i <= dirty@.len(),
            dv == dirty.deep_view(),
            out.deep_view() == merged(dv.take(i as int)),
        decreases dirty@.len() - i,
    {
        let ghost before = out.deep_view();
        assert(dv.take(i + 1).drop_last() =~= dv.take(i as int));
        assert(dv.take(i + 1).last() == dirty@[i as int].deep_view());
        match &dirty[i] {
            PageFragment::OrphanText { text } => {
                let last_is_orphan = match out.last() {
                    Some(PageFragment::OrphanText { .. }) => true,
                    _ => false,
                };
                if last_is_orphan {
                    let last = out.pop();
                    match last {
                        Some(PageFragment::OrphanText { text: prev }) => {
                            let ghost pv = prev@;
                            assert(before.last() == FragmentView::OrphanText { text: pv });
                            let mut joined = prev;
                            joined.append(" ");
                            joined.append(text.as_str());
                            proof {
                                reveal_strlit(" ");
                                assert(" "@ =~= seq![' ']);
                            }
                            assert(joined@ == pv + seq![' '] + text@);
                            let ghost popped = out.deep_view();
                            out.push(PageFragment::OrphanText { text: joined });
                            assert(popped =~= before.drop_last());
                            assert(out.deep_view() =~= merge_step(before, dirty@[i as int].deep_view()));
                        }
                        _ => {
                            assert(false);
                        }
                    }
                } else {
                    out.push(clone_fragment(&dirty[i]));
                    assert(out.deep_view() =~= merge_step(before, dirty@[i as int].deep_view()));
                }
            }
            _ => {
                out.push(clone_fragment(&dirty[i]));
                assert(out.deep_view() =~= merge_step(before, dirty@[i as int].deep_view()));
            }
        }
        i += 1;
    }
    assert(dv.take(dirty@.len() as int) =~= dv);
    out
}


/// No two orphan texts stand next to each other.
pub open spec fn no_adjacent_orphans(s: Seq<FragmentView>) -> bool {
    forall|i: int| 0 <= i < s.len() - 1 ==> !(#[trigger] s[i] is OrphanText && s[i + 1] is OrphanText)
}

/// The fragments that are not orphan texts, in order.
pub open spec fn non_orphans(s: Seq<FragmentView>) -> Seq<FragmentView>
    decreases s.len(),
{
    if s.len() == 0 {
        Seq::empty()
    } else {
        non_orphans(s.drop_last()) + if s.last() is OrphanText { Seq::empty() } else { seq![s.last()] }
    }
}

/// After merging, no two orphan texts are adjacent.
pub proof fn lemma_merged_no_adjacent_orphans(dirty: Seq<FragmentView>)
    ensures
        no_adjacent_orphans(merged(dirty)),
    decreases dirty.len(),
{
    if dirty.len() > 0 {
        lemma_merged_no_adjacent_orphans(dirty.drop_last());
        let m = merged(dirty.drop_last());
        let r = merged(dirty);
        assert forall|i: int| 0 <= i < r.len() - 1 implies !(#[trigger] r[i] is OrphanText && r[i + 1] is OrphanText) by {
            if i < m.len() - 1 {
                assert(r[i] == m[i]);
            }
            if i == m.len() - 2 && m.len() >= 2 {
                assert(r[i] == m[i]);
            }
        }
    }
}

/// Merging keeps every fragment that is not an orphan text, in order.
pub proof fn lemma_merged_keeps_other_fragments(dirty: Seq<FragmentView>)
    ensures
        non_orphans(merged(dirty)) == non_orphans(dirty),
    decreases dirty.len(),
{
    if dirty.len() > 0 {
        lemma_merged_keeps_other_fragments(dirty.drop_last());
        let m = merged(dirty.drop_last());
        let x = dirty.last();
        match x {
            FragmentView::OrphanText { text } => {
                if m.len() > 0 && m.last() is OrphanText {
                    let r = merged(dirty);
                    assert(r.drop_last() =~= m.drop_last());
                    assert(non_orphans(m) == non_orphans(m.drop_last()));
                } else {
                    assert(merged(dirty).drop_last() =~= m);
                }
            }
            _ => {
                assert(merged(dirty).drop_last() =~= m);
            }
        }
    }
}

/// A sequence without adjacent orphan texts is left as it is by merging.
pub proof fn lemma_merged_identity(s: Seq<FragmentView>)
    requires
        no_adjacent_orphans(s),
    ensures
        merged(s) == s,
    decreases s.len(),
{
    if s.len() > 0 {
        assert(no_adjacent_orphans(s.drop_last())) by {
            assert forall|i: int| 0 <= i < s.drop_last().len() - 1 implies !(#[trigger] s.drop_last()[i] is OrphanText && s.drop_last()[i + 1] is OrphanText) by {
                assert(s.drop_last()[i] == s[i]);
                assert(s.drop_last()[i + 1] == s[i + 1]);
            }
        }
        lemma_merged_identity(s.drop_last());
        if s.len() >= 2 {
            assert(s[s.len() - 2] == s.drop_last().last());
        }
        assert(s.drop_last().push(s.last()) =~= s);
    }
}

proof fn lemma_merge_step_after(p: Seq<FragmentView>, q: Seq<FragmentView>, y: FragmentView)
    requires
        p.len() > 0,
        !(p.last() is OrphanText),
    ensures
        merge_step(p + q, y) == p + merge_step(q, y),
{
    if q.len() > 0 {
        assert((p + q).last() == q.last());
        assert((p + q).drop_last() =~= p + q.drop_last());
        assert((p + q).push(y) =~= p + q.push(y));
        match y {
            FragmentView::OrphanText { text } => {
                match q.last() {
                    FragmentView::OrphanText { text: prev } => {
                        assert((p + q.drop_last()).push(FragmentView::OrphanText { text: prev + seq![' '] + text })
                            =~= p + q.drop_last().push(FragmentView::OrphanText { text: prev + seq![' '] + text }));
                    },
                    _ => {},
                }
            },
            _ => {},
        }
    } else {
        assert(p + q =~= p);
        assert(p.push(y) =~= p + seq![y]);
    }
}

/// A run of orphan texts never merges across another fragment: merging
/// `a`, then `x`, then `b` is merging `a`, keeping `x`, and merging `b`.
pub proof fn lemma_merged_splits_at_other_fragment(a: Seq<FragmentView>, x: FragmentView, b: Seq<FragmentView>)
    requires
        !(x is OrphanText),
    ensures
        merged(a + seq![x] + b) == merged(a) + seq![x] + merged(b),
    decreases b.len(),
{
    if b.len() == 0 {
        assert(a + seq![x] + b =~= a + seq![x]);
        assert((a + seq![x]).drop_last() =~= a);
        assert((a + seq![x]).last() == x);
        assert(merged(a).push(x) =~= merged(a) + seq![x] + Seq::<FragmentView>::empty());
    } else {
        let b1 = b.drop_last();
        lemma_merged_splits_at_other_fragment(a, x, b1);
        assert((a + seq![x] + b).drop_last() =~= a + seq![x] + b1);
        assert((a + seq![x] + b).last() == b.last());
        let p = merged(a) + seq![x];
        assert(p.last() == x);
        lemma_merge_step_after(p, merged(b1), b.last());
        assert(p + merged(b1) =~= merged(a) + seq![x] + merged(b1));
        assert(p + merged(b) =~= merged(a) + seq![x] + merged(b));
    }
}

/// Merging orphan texts twice gives what merging once gives.
pub proof fn lemma_merge_orphans_idempotent(dirty: Seq<FragmentView>)
    ensures
        merged(merged(dirty)) == merged(dirty),
{
    lemma_merged_no_adjacent_orphans(dirty);
    lemma_merged_identity(merged(dirty));
}

// ------------------------------------------------------------------
// The whole page
// ------------------------------------------------------------------

/// The course address the page refers to itself by.
pub open spec fn course_url(course_id: Seq<char>) -> Seq<char> {
    "https://ekursy.put.poznan.pl/course/view.php?id="@ + course_id
}

/// What the parser makes of a course page: links to the course itself are
/// removed from the source, then the first `div.course-content`, or else the
/// first `#page-content`, is walked and its orphan texts merged. A page with
/// neither is a session that has expired.
pub open spec fn mercury_result(html: Seq<char>, course_id: Seq<char>) -> Result<Seq<FragmentView>, ErrorView> {
    let cleaned = replace_all(html, course_url(course_id), Seq::empty());
    let root = document_tree(cleaned);
    let blocks = selector_matches(cleaned, "div, p, a, ul"@);
    match page_first(root, selector_matches(cleaned, "div.course-content"@)) {
        Some(content) => Ok(merged(fragments_tree(content, blocks))),
        None => match page_first(root, selector_matches(cleaned, "#page-content"@)) {
            Some(content) => Ok(merged(fragments_tree(content, blocks))),
            None => Err(ErrorView::AUTH_FAILED("Session expired"@)),
        },
    }
}

/// Parses a course page into fragments (see [`mercury_result`]).
pub fn try_parse(html_string: String, course_id: String) -> (r: Result<Vec<PageFragment>, ErrorResponse>)
    ensures
        r matches Ok(v) ==> mercury_result(html_string@, course_id@) == Ok::<Seq<FragmentView>, ErrorView>(v.deep_view()),
        r matches Err(e) ==> mercury_result(html_string@, course_id@) == Err::<Seq<FragmentView>, ErrorView>(e.deep_view()),
{
    let mut full_course_url = copy_str("https://ekursy.put.poznan.pl/course/view.php?id=");
    full_course_url.append(course_id.as_str());
    proof {
        reveal_strlit("https://ekursy.put.poznan.pl/course/view.php?id=");
        reveal_strlit("");
        assert(""@ =~= Seq::<char>::empty());
    }
    let cleaned = replace(html_string.as_str(), full_course_url.as_str(), "");
    let document = parse_document(cleaned.as_str());
    let blocks = flags_for(&document, "div, p, a, ul");
    let course_content = flags_for(&document, "div.course-content");
    if let Some(content) = select_first_in_page(&document.root, &course_content) {
        let out = try_parse_html_tree(content, &blocks);
        return Ok(merge_orphans(out));
    }
    let page_content = flags_for(&document, "#page-content");
    if let Some(content) = select_first_in_page(&document.root, &page_content) {
        let out = try_parse_html_tree(content, &blocks);
        return Ok(merge_orphans(out));
    }
    Err(session_expired())
}

/// A page the parser reads never answers with two orphan texts in a row,
/// and the fragments it answers with are already merged.
pub proof fn lemma_mercury_result_is_merged(html: Seq<char>, course_id: Seq<char>)
    ensures
        mercury_result(html, course_id) matches Ok(v) ==> no_adjacent_orphans(v) && merged(v) == v,
{
    let cleaned = replace_all(html, course_url(course_id), Seq::empty());
    let root = document_tree(cleaned);
    let blocks = selector_matches(cleaned, "div, p, a, ul"@);
    let first = page_first(root, selector_matches(cleaned, "div.course-content"@));
    let second = page_first(root, selector_matches(cleaned, "#page-content"@));
    if let Some(content) = first {
        lemma_merge_orphans_idempotent(fragments_tree(content, blocks));
        lemma_merged_no_adjacent_orphans(fragments_tree(content, blocks));
    } else if let Some(content) = second {
        lemma_merge_orphans_idempotent(fragments_tree(content, blocks));
        lemma_merged_no_adjacent_orphans(fragments_tree(content, blocks));
    }
}

impl MercuryParser {
    /// Parses a course page into fragments (see [`mercury_result`]).
    pub fn parse(&self, html_string: String, course_id: String) -> (r: Result<Vec<PageFragment>, ErrorResponse>)
        ensures
            r matches Ok(v) ==> mercury_result(html_string@, course_id@) == Ok::<Seq<FragmentView>, ErrorView>(v.deep_view()),
            r matches Err(e) ==> mercury_result(html_string@, course_id@) == Err::<Seq<FragmentView>, ErrorView>(e.deep_view()),
    {
        try_parse(html_string, course_id)
    }
}


/// A `<button>` stands for nothing on the course page, whatever it holds:
/// at most the separator of a `section main` element, never a text, link
/// or caption (unless it is itself a section name).
pub proof fn lemma_button_gives_nothing(t: TreeView, f: Seq<bool>)
    requires
        name_is(t, "button"@),
        !has_class(t, "sectionname"@),
    ensures
        fragments_tree(t, f).len() <= 1,
        forall|i: int| 0 <= i < fragments_tree(t, f).len() ==> #[trigger] fragments_tree(t, f)[i] is SectionSeparator,
{
}


proof fn lemma_prefix_of_prefix(s: Seq<char>, p: Seq<char>, q: Seq<char>)
    requires
        has_prefix(s, p),
        has_prefix(p, q),
    ensures
        has_prefix(s, q),
{
    assert(s.subrange(0, q.len() as int) =~= p.subrange(0, q.len() as int));
}

proof fn lemma_flagged_child_is_found(ts: Seq<TreeView>, f: Seq<bool>, i: int)
    requires
        0 <= i < ts.len(),
        is_match(ts[i], f),
    ensures
        matches_in_forest(ts, f).len() > 0,
    decreases ts.len(),
{
    let l = ts.len() - 1;
    if i < l {
        lemma_flagged_child_is_found(ts.drop_last(), f, i);
        assert(ts.drop_last()[i] == ts[i]);
    } else {
        assert(matches_in_tree(ts[l], f).len() > 0);
    }
    assert(matches_in_forest(ts, f) == matches_in_forest(ts.drop_last(), f) + matches_in_tree(ts[l], f));
}

proof fn lemma_child_fragments_are_walked(ts: Seq<TreeView>, f: Seq<bool>, i: int, x: FragmentView)
    requires
        0 <= i < ts.len(),
        is_element(ts[i]),
        fragments_tree(ts[i], f).contains(x),
    ensures
        explore_forest(ts, f).contains(x),
    decreases ts.len(),
{
    let l = ts.len() - 1;
    let pre = explore_forest(ts.drop_last(), f);
    if i == l {
        let k = choose|k: int| 0 <= k < fragments_tree(ts[i], f).len() && fragments_tree(ts[i], f)[k] == x;
        assert(explore_forest(ts, f)[pre.len() + k] == x);
    } else {
        assert(ts.drop_last()[i] == ts[i]);
        lemma_child_fragments_are_walked(ts.drop_last(), f, i, x);
        let k = choose|k: int| 0 <= k < pre.len() && pre[k] == x;
        assert(explore_forest(ts, f)[k] == x);
    }
}

/// A `p`, `span` or `li` that holds one of the elements `f` flags (the
/// blocks `div, p, a, ul` on a course page) is walked child by child: its
/// fragments are its children's, after the separator of a `section main`.
pub proof fn lemma_block_holder_is_walked(t: TreeView, f: Seq<bool>)
    requires
        name_is(t, "p"@) || name_is(t, "span"@) || name_is(t, "li"@),
        !is_hidden(t),
        !has_class(t, "sectionname"@),
        first_below(t, f) is Some,
    ensures
        fragments_tree(t, f) == (if has_class(t, "section"@) && has_class(t, "main"@) {
            seq![FragmentView::SectionSeparator]
        } else {
            Seq::empty()
        }) + explore_forest(t.children, f),
{
    reveal_strlit("p");
    reveal_strlit("span");
    reveal_strlit("li");
    reveal_strlit("a");
    reveal_strlit("button");
    reveal_strlit("style");
    reveal_strlit("iframe");
    if name_is(t, "p"@) {
        assert(ascii_lower(name_of(t)[0]) == ascii_lower("p"@[0]));
    }
    assert(!name_is(t, "button"@) && !name_is(t, "style"@) && !name_is(t, "a"@) && !name_is(t, "iframe"@));
}

/// No link inside a paragraph is lost: when a `p`, `span` or `li` has an
/// `<a>` child that `f` flags (as `div, p, a, ul` flags every `<a>` of a
/// course page) and whose `href` leads off the Moodle site, the fragments of
/// the paragraph hold a `Link` to that address with the link's text.
pub proof fn lemma_paragraph_keeps_links(t: TreeView, f: Seq<bool>, i: int, href: Seq<char>)
    requires
        name_is(t, "p"@) || name_is(t, "span"@) || name_is(t, "li"@),
        !is_hidden(t),
        !has_class(t, "sectionname"@),
        0 <= i < t.children.len(),
        name_is(t.children[i], "a"@),
        is_match(t.children[i], f),
        !is_hidden(t.children[i]),
        !has_class(t.children[i], "sectionname"@),
        attr_of(t.children[i], "href"@) == Some(href),
        !has_prefix(href, "#"@),
        !has_prefix(href, "https://ekursy.put.poznan.pl/"@),
    ensures
        fragments_tree(t, f).contains(FragmentView::Link { text: text_or_empty(t.children[i]), link: href }),
{
    let c = t.children[i];
    let x = FragmentView::Link { text: text_or_empty(c), link: href };
    reveal_strlit("a");
    reveal_strlit("button");
    reveal_strlit("style");
    reveal_strlit("https://ekursy.put.poznan.pl/");
    reveal_strlit("https://ekursy.put.poznan.pl/user");
    reveal_strlit("https://ekursy.put.poznan.pl/course");
    reveal_strlit("https://ekursy.put.poznan.pl/mod/");
    reveal_strlit("https://ekursy.put.poznan.pl/pluginfile.php");
    let site = "https://ekursy.put.poznan.pl/"@;
    assert("https://ekursy.put.poznan.pl/user"@.subrange(0, site.len() as int) =~= site);
    assert(has_prefix("https://ekursy.put.poznan.pl/user"@, site));
    assert("https://ekursy.put.poznan.pl/course"@.subrange(0, site.len() as int) =~= site);
    assert(has_prefix("https://ekursy.put.poznan.pl/course"@, site));
    assert("https://ekursy.put.poznan.pl/mod/"@.subrange(0, site.len() as int) =~= site);
    assert(has_prefix("https://ekursy.put.poznan.pl/mod/"@, site));
    assert("https://ekursy.put.poznan.pl/pluginfile.php"@.subrange(0, site.len() as int) =~= site);
    assert(has_prefix("https://ekursy.put.poznan.pl/pluginfile.php"@, site));
    if has_prefix(href, "https://ekursy.put.poznan.pl/user"@) {
        lemma_prefix_of_prefix(href, "https://ekursy.put.poznan.pl/user"@, site);
    }
    if has_prefix(href, "https://ekursy.put.poznan.pl/course"@) {
        lemma_prefix_of_prefix(href, "https://ekursy.put.poznan.pl/course"@, site);
    }
    if has_prefix(href, "https://ekursy.put.poznan.pl/mod/"@) {
        lemma_prefix_of_prefix(href, "https://ekursy.put.poznan.pl/mod/"@, site);
    }
    if has_prefix(href, "https://ekursy.put.poznan.pl/pluginfile.php"@) {
        lemma_prefix_of_prefix(href, "https://ekursy.put.poznan.pl/pluginfile.php"@, site);
    }
    assert(a_tag_fragment(c) == Some(x));
    assert(!name_is(c, "button"@) && !name_is(c, "style"@));
    let sep = if has_class(c, "section"@) && has_class(c, "main"@) {
        seq![FragmentView::SectionSeparator]
    } else {
        Seq::<FragmentView>::empty()
    };
    assert(fragments_tree(c, f) == sep + seq![x]);
    assert(fragments_tree(c, f)[sep.len() as int] == x);
    lemma_flagged_child_is_found(t.children, f, i);
    lemma_block_holder_is_walked(t, f);
    lemma_child_fragments_are_walked(t.children, f, i, x);
    let tsep = if has_class(t, "section"@) && has_class(t, "main"@) {
        seq![FragmentView::SectionSeparator]
    } else {
        Seq::<FragmentView>::empty()
    };
    let k = choose|k: int| 0 <= k < explore_forest(t.children, f).len() && explore_forest(t.children, f)[k] == x;
    assert(fragments_tree(t, f)[tsep.len() + k] == x);
}

/// The course page's fragments are those of its content element, walked
/// with the blocks that the selector `div, p, a, ul` matches, links among
/// them, and then merged.
pub proof fn lemma_mercury_walks_with_link_blocks(html: Seq<char>, course_id: Seq<char>)
    ensures
        mercury_result(html, course_id) matches Ok(v) ==> {
            let cleaned = replace_all(html, course_url(course_id), Seq::empty());
            let root = document_tree(cleaned);
            exists|content: TreeView|
                (page_first(root, selector_matches(cleaned, "div.course-content"@)) == Some(content)
                    || page_first(root, selector_matches(cleaned, "#page-content"@)) == Some(content))
                && v == merged(#[trigger] fragments_tree(content, selector_matches(cleaned, "div, p, a, ul"@)))
        },
{
    let cleaned = replace_all(html, course_url(course_id), Seq::empty());
    let root = document_tree(cleaned);
    let blocks = selector_matches(cleaned, "div, p, a, ul"@);
    if let Some(content) = page_first(root, selector_matches(cleaned, "div.course-content"@)) {
        assert(fragments_tree(content, blocks) == fragments_tree(content, blocks));
    } else if let Some(content) = page_first(root, selector_matches(cleaned, "#page-content"@)) {
        assert(fragments_tree(content, blocks) == fragments_tree(content, blocks));
    }
}

} // verus!
