//! The parsed HTML document as a plain tree.
//!
//! `scraper` parses the page; its node tree is handed over as the sequence
//! of open/close steps of a depth-first walk, which [`build_node`] turns
//! back into a [`DomNode`] tree. CSS selectors are matched by `scraper`
//! too: one call yields, for every step of the same walk, whether it opens
//! an element that the selector matches. Everything above that (walking,
//! collecting text, attributes, classes, first and all matches) is verified.
use vstd::prelude::*;
use crate::text::{
    concat_all, concat_strings, copy_str, eq_ignore_ascii_case, eq_ignore_ascii_case_str, parse_usize,
    parse_usize_str, substring, to_chars,
};
use ego_tree::iter::Edge;
use scraper::{ElementRef, Html, Node, Selector};

verus! {

/// What a node of the document holds.
#[derive(Debug, PartialEq, Eq)]
pub enum NodeData {
    /// An element: its local name, its attributes as
    /// `(namespace, local name, value)`, its classes as `scraper` lists
    /// them (sorted, without repetition), and its node id as `Debug` writes
    /// it (`NodeId(n)`, `n` counting the nodes in the order the parser
    /// created them).
    Element { name: String, attrs: Vec<(String, String, String)>, classes: Vec<String>, node_id: String },
    /// A text node.
    Text { text: String },
    /// The document itself, a comment, a doctype or a processing instruction.
    Other,
}

/// The mathematical value of a [`NodeData`].
pub enum NodeView {
    Element {
        name: Seq<char>,
        attrs: Seq<(Seq<char>, Seq<char>, Seq<char>)>,
        classes: Seq<Seq<char>>,
        node_id: Seq<char>,
    },
    Text { text: Seq<char> },
    Other,
}

impl DeepView for NodeData {
    type V = NodeView;

    open spec fn deep_view(&self) -> NodeView {
        match self {
            NodeData::Element { name, attrs, classes, node_id } => NodeView::Element {
                name: name@,
                attrs: attrs.deep_view(),
                classes: classes.deep_view(),
                node_id: node_id@,
            },
            NodeData::Text { text } => NodeView::Text { text: text@ },
            NodeData::Other => NodeView::Other,
        }
    }
}

/// One step of a depth-first walk of the document.
#[derive(Debug, PartialEq, Eq)]
pub enum DomEvent {
    /// Entering a node.
    Open(NodeData),
    /// Leaving the node entered last and not left yet.
    Close,
}

/// The mathematical value of a [`DomEvent`].
pub enum EventView {
    Open(NodeView),
    Close,
}

impl DeepView for DomEvent {
    type V = EventView;

    open spec fn deep_view(&self) -> EventView {
        match self {
            DomEvent::Open(d) => EventView::Open(d.deep_view()),
            DomEvent::Close => EventView::Close,
        }
    }
}

/// A node of the document tree. `pos` is the index of the step that opens
/// it in the depth-first walk, which is where selector matches are found.
#[derive(Debug, PartialEq, Eq)]
pub struct DomNode {
    pub pos: usize,
    pub data: NodeData,
    pub children: Vec<DomNode>,
}

/// The mathematical value of a [`DomNode`].
pub struct TreeView {
    pub pos: nat,
    pub data: NodeView,
    pub children: Seq<TreeView>,
}

/// The value of a node and of all its descendants.
pub open spec fn tree_view(n: &DomNode) -> TreeView
    decreases n,
{
    TreeView {
        pos: n.pos as nat,
        data: n.data.deep_view(),
        children: Seq::new(
            n.children@.len(),
            |i: int| if 0 <= i < n.children@.len() { tree_view(&n.children@[i]) } else { arbitrary() },
        ),
    }
}

/// The value of a list of sibling nodes.
pub open spec fn forest_view(ns: Seq<DomNode>) -> Seq<TreeView> {
    Seq::new(ns.len(), |i: int| tree_view(&ns[i]))
}

impl DeepView for DomNode {
    type V = TreeView;

    open spec fn deep_view(&self) -> TreeView {
        tree_view(self)
    }
}


// ------------------------------------------------------------------
// From the walk back to the tree
// ------------------------------------------------------------------

/// The node whose opening step is at `p`, and the index just past its
/// closing step; `None` when the steps from `p` do not form a node.
pub open spec fn parse_node(ev: Seq<EventView>, p: int) -> Option<(TreeView, int)>
    decreases ev.len() - p, 0int,
{
    if 0 <= p < ev.len() {
        match ev[p] {
            EventView::Open(d) => match parse_children(ev, p + 1) {
                Some((kids, q)) => Some((TreeView { pos: p as nat, data: d, children: kids }, q)),
                None => None,
            },
            EventView::Close => None,
        }
    } else {
        None
    }
}

/// The sibling nodes that start at `p`, up to and including the closing
/// step of their parent, and the index just past that step.
pub open spec fn parse_children(ev: Seq<EventView>, p: int) -> Option<(Seq<TreeView>, int)>
    decreases ev.len() - p, 1int,
{
    if 0 <= p < ev.len() {
        match ev[p] {
            EventView::Close => Some((Seq::empty(), p + 1)),
            EventView::Open(_) => match parse_node(ev, p) {
                Some((t, q)) => if p < q <= ev.len() {
                    match parse_children(ev, q) {
                        Some((ts, r)) => Some((seq![t] + ts, r)),
                        None => None,
                    }
                } else {
                    None
                },
                None => None,
            },
        }
    } else {
        None
    }
}

/// A copy of a list of strings.
pub fn clone_strings(v: &Vec<String>) -> (out: Vec<String>)
    ensures
        out.deep_view() == v.deep_view(),
{
    let mut out: Vec<String> = Vec::new();
    let mut i: usize = 0;
    while i < v.len()
        invariant
            i <= v@.len(),
            out.deep_view() == v.deep_view().take(i as int),
        decreases v@.len() - i,
    {
        let c = v[i].clone();
        let ghost before = out.deep_view();
        out.push(c);
        assert(out.deep_view() =~= before.push(c@));
        assert(v.deep_view().take(i + 1) =~= v.deep_view().take(i as int).push(v[i as int]@));
        i += 1;
    }
    assert(v.deep_view().take(v@.len() as int) =~= v.deep_view());
    out
}

fn clone_attrs(v: &Vec<(String, String, String)>) -> (out: Vec<(String, String, String)>)
    ensures
        out.deep_view() == v.deep_view(),
{
    let mut out: Vec<(String, String, String)> = Vec::new();
    let mut i: usize = 0;
    while i < v.len()
        invariant
            i <= v@.len(),
            out.deep_view() == v.deep_view().take(i as int),
        decreases v@.len() - i,
    {
        let a = &v[i];
        let c = (a.0.clone(), a.1.clone(), a.2.clone());
        let ghost before = out.deep_view();
        out.push(c);
        assert(out.deep_view() =~= before.push(c.deep_view()));
        assert(v.deep_view().take(i + 1) =~= v.deep_view().take(i as int).push(v[i as int].deep_view()));
        i += 1;
    }
    assert(v.deep_view().take(v@.len() as int) =~= v.deep_view());
    out
}

/// A copy of a node's data.
pub fn clone_data(d: &NodeData) -> (out: NodeData)
    ensures
        out.deep_view() == d.deep_view(),
{
    match d {
        NodeData::Element { name, attrs, classes, node_id } => NodeData::Element {
            name: name.clone(),
            attrs: clone_attrs(attrs),
            classes: clone_strings(classes),
            node_id: node_id.clone(),
        },
        NodeData::Text { text } => NodeData::Text { text: text.clone() },
        NodeData::Other => NodeData::Other,
    }
}

/// Builds the node whose opening step is at `p` (see [`parse_node`]).
pub fn build_node(ev: &Vec<DomEvent>, p: usize) -> (r: Option<(DomNode, usize)>)
    ensures
        r matches Some((t, q)) ==> parse_node(ev.deep_view(), p as int) == Some((tree_view(&t), q as int)),
        r is None ==> parse_node(ev.deep_view(), p as int) is None,
    decreases ev@.len() - p, 0int,
{
    if p < ev.len() {
        match &ev[p] {
            DomEvent::Open(d) => {
                match build_children(ev, p + 1) {
                    Some((kids, q)) => {
                        let node = DomNode { pos: p, data: clone_data(d), children: kids };
                        proof {
                            assert(tree_view(&node).children =~= forest_view(kids@));
                        }
                        Some((node, q))
                    }
                    None => None,
                }
            }
            DomEvent::Close => None,
        }
    } else {
        None
    }
}

/// Builds the sibling nodes starting at `p` (see [`parse_children`]).
pub fn build_children(ev: &Vec<DomEvent>, p: usize) -> (r: Option<(Vec<DomNode>, usize)>)
    ensures
        r matches Some((ts, q)) ==> parse_children(ev.deep_view(), p as int) == Some((forest_view(ts@), q as int)),
        r is None ==> parse_children(ev.deep_view(), p as int) is None,
    decreases ev@.len() - p, 1int,
{
    let ghost evv = ev.deep_view();
    let mut kids: Vec<DomNode> = Vec::new();
    let mut i = p;
    loop
        invariant
            p <= i,
            evv == ev.deep_view(),
            parse_children(evv, p as int) == match parse_children(evv, i as int) {
                Some((ts, r)) => Some((forest_view(kids@) + ts, r)),
                None => None,
            },
        decreases ev@.len() - i,
    {
        if i >= ev.len() {
            return None;
        }
        let is_close = match &ev[i] {
            DomEvent::Close => true,
            DomEvent::Open(_) => false,
        };
        if is_close {
            assert(forest_view(kids@) + Seq::<TreeView>::empty() =~= forest_view(kids@));
            return Some((kids, i + 1));
        }
        let built = build_node(ev, i);
        match built {
            None => return None,
            Some((t, q)) => {
                if q <= i || q > ev.len() {
                    return None;
                }
                let ghost before = kids@;
                kids.push(t);
                proof {
                    assert(forest_view(kids@) =~= forest_view(before) + seq![tree_view(&t)]);
                    match parse_children(evv, q as int) {
                        Some((ts, r)) => {
                            assert(forest_view(before) + (seq![tree_view(&t)] + ts) =~= forest_view(kids@) + ts);
                        }
                        None => {}
                    }
                }
                i = q;
            }
        }
    }
}


// ------------------------------------------------------------------
// The calls into scraper
// ------------------------------------------------------------------

/// The depth-first walk (open and close steps, in tree order) of the node
/// tree that `scraper::Html::parse_document` builds from `html`.
pub uninterp spec fn parsed_html(html: Seq<char>) -> Seq<EventView>;

/// For each step of the walk of `parsed_html(html)`: whether it opens an
/// element that `scraper::Selector::parse(selector)` matches. Empty when the
/// selector does not parse.
pub uninterp spec fn selector_matches(html: Seq<char>, selector: Seq<char>) -> Seq<bool>;

/// The HTML serialization (`ElementRef::html`) of the element opened at
/// `step` of the walk of `parsed_html(html)`; empty when that step opens no
/// element.
pub uninterp spec fn element_outer_html(html: Seq<char>, step: nat) -> Seq<char>;

/// Calls `scraper::Html::parse_document` on `html` and hands the node tree
/// over as the steps of `Tree::root().traverse()`, each node converted field
/// by field (element name, attributes, `Element::classes`, the `Debug` text
/// of its `NodeId`, text). The
/// contract only names the result: HTML5 parsing takes pages to state.
#[verifier::external_body]
fn html_events(html: &str) -> (events: Vec<DomEvent>)
    ensures
        events.deep_view() == parsed_html(html@),
{
    let doc = Html::parse_document(html);
    doc.tree.root().traverse().map(|edge| match edge {
        Edge::Open(node) => DomEvent::Open(match node.value() {
            Node::Element(e) => NodeData::Element {
                name: e.name().to_string(),
                attrs: e.attrs.iter().map(|(q, v)| (q.ns.to_string(), q.local.to_string(), v.to_string())).collect(),
                classes: e.classes().map(String::from).collect(),
                node_id: format!("{:?}", node.id()),
            },
            Node::Text(t) => NodeData::Text { text: t.to_string() },
            _ => NodeData::Other,
        }),
        Edge::Close(_) => DomEvent::Close,
    }).collect()
}

/// Calls `scraper::Selector::parse(selector)` and `Selector::matches` on each
/// element of the document that `Html::parse_document(html)` builds, in the
/// order of `Tree::root().traverse()`; an empty list when the selector does
/// not parse. The contract only names the result.
#[verifier::external_body]
fn selector_flags(html: &str, selector: &str) -> (flags: Vec<bool>)
    ensures
        flags@ == selector_matches(html@, selector@),
{
    let doc = Html::parse_document(html);
    match Selector::parse(selector) {
        Ok(sel) => doc.tree.root().traverse().map(|edge| match edge {
            Edge::Open(node) => match ElementRef::wrap(node) {
                Some(e) => sel.matches(&e),
                None => false,
            },
            Edge::Close(_) => false,
        }).collect(),
        Err(_) => Vec::new(),
    }
}

/// Calls `ElementRef::html` on the element opened at `step` of the walk of
/// `Html::parse_document(html)`; empty when that step opens no element. The
/// contract only names the result.
#[verifier::external_body]
fn outer_html_at(html: &str, step: usize) -> (out: String)
    ensures
        out@ == element_outer_html(html@, step as nat),
{
    let doc = Html::parse_document(html);
    match doc.tree.root().traverse().nth(step) {
        Some(Edge::Open(node)) => match ElementRef::wrap(node) {
            Some(e) => e.html(),
            None => String::new(),
        },
        _ => String::new(),
    }
}

// ------------------------------------------------------------------
// Documents
// ------------------------------------------------------------------

/// A parsed page: its source and its node tree.
#[derive(Debug, PartialEq, Eq)]
pub struct Document {
    pub source: String,
    pub root: DomNode,
}

/// The tree with a single, empty document node.
pub open spec fn empty_tree() -> TreeView {
    TreeView { pos: 0, data: NodeView::Other, children: Seq::empty() }
}

/// The tree of the document parsed from `html`, rooted at the document node.
pub open spec fn document_tree(html: Seq<char>) -> TreeView {
    match parse_node(parsed_html(html), 0) {
        Some((t, _)) => t,
        None => empty_tree(),
    }
}

/// Parses `html` into a [`Document`].
pub fn parse_document(html: &str) -> (doc: Document)
    ensures
        doc.source@ == html@,
        doc.root.deep_view() == document_tree(html@),
{
    let events = html_events(html);
    let root = match build_node(&events, 0) {
        Some((t, _)) => t,
        None => {
            let t = DomNode { pos: 0, data: NodeData::Other, children: Vec::new() };
            assert(tree_view(&t).children =~= Seq::<TreeView>::empty());
            t
        }
    };
    Document { source: copy_str(html), root }
}

/// The selector flags of `selector` on the document.
pub fn flags_for(doc: &Document, selector: &str) -> (flags: Vec<bool>)
    ensures
        flags@ == selector_matches(doc.source@, selector@),
{
    selector_flags(doc.source.as_str(), selector)
}

/// The HTML of an element of the document (`ElementRef::html`).
pub fn outer_html(doc: &Document, node: &DomNode) -> (out: String)
    ensures
        out@ == element_outer_html(doc.source@, node.pos as nat),
{
    outer_html_at(doc.source.as_str(), node.pos)
}

// ------------------------------------------------------------------
// Node properties
// ------------------------------------------------------------------

/// The node is an element.
pub open spec fn is_element(t: TreeView) -> bool {
    t.data is Element
}

/// The local name of an element (empty for other nodes).
pub open spec fn name_of(t: TreeView) -> Seq<char> {
    match t.data {
        NodeView::Element { name, .. } => name,
        _ => Seq::empty(),
    }
}

/// The value of the attribute `name` without namespace, the first such in
/// `attrs` (`Element::attr`; the parser keeps one attribute per name).
pub open spec fn find_attr(attrs: Seq<(Seq<char>, Seq<char>, Seq<char>)>, name: Seq<char>) -> Option<Seq<char>>
    decreases attrs.len(),
{
    if attrs.len() == 0 {
        None
    } else if attrs[0].0.len() == 0 && attrs[0].1 == name {
        Some(attrs[0].2)
    } else {
        find_attr(attrs.drop_first(), name)
    }
}

/// The value of an element's attribute `name` (`None` for other nodes).
pub open spec fn attr_of(t: TreeView, name: Seq<char>) -> Option<Seq<char>> {
    match t.data {
        NodeView::Element { attrs, .. } => find_attr(attrs, name),
        _ => None,
    }
}

/// The element has the class `c`, compared without ASCII case
/// (`Element::has_class` with `CaseSensitivity::AsciiCaseInsensitive`).
pub open spec fn has_class(t: TreeView, c: Seq<char>) -> bool {
    match t.data {
        NodeView::Element { classes, .. } => exists|i: int| 0 <= i < classes.len() && eq_ignore_ascii_case(#[trigger] classes[i], c),
        _ => false,
    }
}

/// The element's local name equals `target` up to ASCII case. For the
/// lower-case tag names this library compares with, this is the same as
/// `name().to_lowercase() == target`.
pub open spec fn name_is(t: TreeView, target: Seq<char>) -> bool {
    is_element(t) && eq_ignore_ascii_case(name_of(t), target)
}

/// Whether `node` is an element.
pub fn node_is_element(node: &DomNode) -> (b: bool)
    ensures
        b == is_element(node.deep_view()),
{
    match &node.data {
        NodeData::Element { .. } => true,
        _ => false,
    }
}

/// Whether `node` is an element whose name is `target` up to ASCII case.
pub fn node_name_is(node: &DomNode, target: &str) -> (b: bool)
    ensures
        b == name_is(node.deep_view(), target@),
{
    match &node.data {
        NodeData::Element { name, .. } => eq_ignore_ascii_case_str(name.as_str(), target),
        _ => false,
    }
}

/// The value of an element's attribute (`ElementRef::attr`).
pub fn node_attr(node: &DomNode, name: &str) -> (r: Option<String>)
    ensures
        r matches Some(v) ==> attr_of(node.deep_view(), name@) == Some(v@),
        r is None ==> attr_of(node.deep_view(), name@) is None,
{
    match &node.data {
        NodeData::Element { attrs, .. } => {
            let mut i: usize = 0;
            let ghost av = attrs.deep_view();
            assert(attr_of(node.deep_view(), name@) == find_attr(av, name@));
            assert(av.skip(0) =~= av);
            while i < attrs.len()
                invariant
                    i <= attrs@.len(),
                    av == attrs.deep_view(),
                    attr_of(node.deep_view(), name@) == find_attr(av, name@),
                    find_attr(av, name@) == find_attr(av.skip(i as int), name@),
                decreases attrs@.len() - i,
            {
                let a = &attrs[i];
                assert(av.skip(i as int)[0] == a.deep_view());
                let wanted = name.to_owned();
                if a.0.as_str().is_empty() && a.1 == wanted {
                    assert(a.0@.len() == 0 && a.1@ == name@);
                    assert(find_attr(av.skip(i as int), name@) == Some(a.2@));
                    let v = a.2.clone();
                    return Some(v);
                }
                assert(av.skip(i as int).drop_first() =~= av.skip(i + 1));
                i += 1;
            }
            None
        }
        _ => None,
    }
}

/// Whether an element has the class `c`, ignoring ASCII case.
pub fn node_has_class(node: &DomNode, c: &str) -> (b: bool)
    ensures
        b == has_class(node.deep_view(), c@),
{
    match &node.data {
        NodeData::Element { classes, .. } => {
            let mut i: usize = 0;
            let ghost cv = classes.deep_view();
            assert(has_class(node.deep_view(), c@) == exists|j: int| 0 <= j < cv.len() && eq_ignore_ascii_case(#[trigger] cv[j], c@));
            while i < classes.len()
                invariant
                    i <= classes@.len(),
                    cv == classes.deep_view(),
                    has_class(node.deep_view(), c@) == exists|j: int| 0 <= j < cv.len() && eq_ignore_ascii_case(#[trigger] cv[j], c@),
                    forall|j: int| 0 <= j < i ==> !eq_ignore_ascii_case(#[trigger] classes.deep_view()[j], c@),
                decreases classes@.len() - i,
            {
                if eq_ignore_ascii_case_str(classes[i].as_str(), c) {
                    assert(eq_ignore_ascii_case(classes.deep_view()[i as int], c@));
                    return true;
                }
                i += 1;
            }
            false
        }
        _ => false,
    }
}


// ------------------------------------------------------------------
// Selecting and collecting text
// ------------------------------------------------------------------

/// The node is an element whose opening step is flagged.
pub open spec fn is_match(t: TreeView, flags: Seq<bool>) -> bool {
    is_element(t) && t.pos < flags.len() && flags[t.pos as int]
}

/// The flagged elements of a subtree, the root included, in tree order.
pub open spec fn matches_in_tree(t: TreeView, flags: Seq<bool>) -> Seq<TreeView>
    decreases t,
{
    (if is_match(t, flags) { seq![t] } else { Seq::empty() }) + matches_in_forest(t.children, flags)
}

/// The flagged elements of a list of subtrees, in tree order.
pub open spec fn matches_in_forest(ts: Seq<TreeView>, flags: Seq<bool>) -> Seq<TreeView>
    decreases ts,
{
    if ts.len() == 0 {
        Seq::empty()
    } else {
        matches_in_forest(ts.drop_last(), flags) + matches_in_tree(ts[ts.len() - 1], flags)
    }
}

/// What `ElementRef::select` yields below `t`: its flagged descendants in
/// tree order. Selecting in the whole page goes by [`page_select`].
pub open spec fn select_below(t: TreeView, flags: Seq<bool>) -> Seq<TreeView> {
    matches_in_forest(t.children, flags)
}

/// What `select(..).next()` yields below `t`.
pub open spec fn first_below(t: TreeView, flags: Seq<bool>) -> Option<TreeView> {
    let m = select_below(t, flags);
    if m.len() > 0 { Some(m[0]) } else { None }
}

/// The text nodes of a subtree, in tree order (`ElementRef::text`).
pub open spec fn texts_in_tree(t: TreeView) -> Seq<Seq<char>>
    decreases t,
{
    (match t.data {
        NodeView::Text { text } => seq![text],
        _ => Seq::empty(),
    }) + texts_in_forest(t.children)
}

/// The text nodes of a list of subtrees, in tree order.
pub open spec fn texts_in_forest(ts: Seq<TreeView>) -> Seq<Seq<char>>
    decreases ts,
{
    if ts.len() == 0 {
        Seq::empty()
    } else {
        texts_in_forest(ts.drop_last()) + texts_in_tree(ts[ts.len() - 1])
    }
}

/// All the text of a subtree, joined (`text().collect::<String>()`).
pub open spec fn text_of(t: TreeView) -> Seq<char> {
    concat_all(texts_in_tree(t))
}

proof fn lemma_forest_view_push(ns: Seq<DomNode>, i: int)
    requires
        0 <= i < ns.len(),
    ensures
        forest_view(ns).take(i + 1) =~= forest_view(ns).take(i).push(tree_view(&ns[i])),
        forest_view(ns).take(i + 1).drop_last() =~= forest_view(ns).take(i),
{
}

/// Appends the flagged elements of the subtrees `nodes` to `out`.
fn collect_matches<'a>(nodes: &'a Vec<DomNode>, flags: &Vec<bool>, out: &mut Vec<&'a DomNode>)
    ensures
        final(out).deep_view() == old(out).deep_view() + matches_in_forest(nodes.deep_view(), flags@),
    decreases nodes,
{
    let ghost fv = nodes.deep_view();
    assert(fv =~= forest_view(nodes@));
    let mut i: usize = 0;
    assert(fv.take(0) =~= Seq::<TreeView>::empty());
    while i < nodes.len()
        invariant
            i <= nodes@.len(),
            fv == nodes.deep_view(),
            fv == forest_view(nodes@),
            out.deep_view() == old(out).deep_view() + matches_in_forest(fv.take(i as int), flags@),
        decreases nodes@.len() - i,
    {
        let n = &nodes[i];
        let ghost before = out.deep_view();
        proof {
            lemma_forest_view_push(nodes@, i as int);
        }
        if n.pos < flags.len() && node_is_element(n) && flags[n.pos] {
            out.push(n);
            assert(out.deep_view() =~= before + seq![tree_view(n)]);
        } else {
            assert(before + Seq::<TreeView>::empty() =~= before);
        }
        let ghost mid = out.deep_view();
        assert(decreases_to!(nodes => nodes@[i as int]));
        collect_matches(&n.children, flags, out);
        assert(tree_view(n).children =~= n.children.deep_view());
        assert(fv.take(i + 1)[i as int] == tree_view(n));
        let ghost here = if is_match(tree_view(n), flags@) { seq![tree_view(n)] } else { Seq::<TreeView>::empty() };
        assert(mid == before + here);
        assert(matches_in_tree(tree_view(n), flags@) == here + matches_in_forest(n.children.deep_view(), flags@));
        assert(matches_in_forest(fv.take(i + 1), flags@) == matches_in_forest(fv.take(i as int), flags@) + matches_in_tree(tree_view(n), flags@));
        assert(out.deep_view() =~= old(out).deep_view() + matches_in_forest(fv.take(i + 1), flags@));
        i += 1;
    }
    assert(fv.take(nodes@.len() as int) =~= fv);
}

/// The flagged descendants of `node`, in tree order (`select(..).collect()`).
pub fn select_all<'a>(node: &'a DomNode, flags: &Vec<bool>) -> (out: Vec<&'a DomNode>)
    ensures
        out.deep_view() == select_below(node.deep_view(), flags@),
{
    let mut out: Vec<&'a DomNode> = Vec::new();
    collect_matches(&node.children, flags, &mut out);
    assert(tree_view(node).children =~= node.children.deep_view());
    assert(out.deep_view() =~= select_below(node.deep_view(), flags@));
    out
}

/// The first flagged descendant of `node` (`select(..).next()`).
pub fn select_first<'a>(node: &'a DomNode, flags: &Vec<bool>) -> (r: Option<&'a DomNode>)
    ensures
        r matches Some(m) ==> first_below(node.deep_view(), flags@) == Some(m.deep_view()),
        r is None ==> first_below(node.deep_view(), flags@) is None,
{
    let all = select_all(node, flags);
    if all.len() > 0 {
        assert(all.deep_view()[0] == all@[0].deep_view());
        Some(all[0])
    } else {
        None
    }
}

// ------------------------------------------------------------------
// Selecting in the whole page
// ------------------------------------------------------------------

/// The number in an element's node id (`NodeId(n)`): its place in the
/// order in which the parser created the nodes; 0 for other nodes.
pub open spec fn creation_rank(t: TreeView) -> nat {
    match t.data {
        NodeView::Element { node_id, .. } => if node_id.len() >= 8 {
            match parse_usize(node_id.subrange(7, node_id.len() - 1)) {
                Some(v) => v,
                None => 0,
            }
        } else {
            0
        },
        _ => 0,
    }
}

/// Where `x` goes into `sorted`: before the first element created after
/// it, or at the end.
pub open spec fn rank_insert_index(sorted: Seq<TreeView>, x: TreeView, i: int) -> int
    decreases sorted.len() - i,
{
    if i >= sorted.len() {
        sorted.len() as int
    } else if creation_rank(x) < creation_rank(sorted[i]) {
        i
    } else {
        rank_insert_index(sorted, x, i + 1)
    }
}

/// The elements in the order the parser created them (ties keep their
/// order).
pub open spec fn in_creation_order(s: Seq<TreeView>) -> Seq<TreeView>
    decreases s.len(),
{
    if s.len() == 0 {
        Seq::empty()
    } else {
        let sorted = in_creation_order(s.drop_last());
        let k = rank_insert_index(sorted, s.last(), 0);
        sorted.take(k).push(s.last()) + sorted.skip(k)
    }
}

/// What `scraper::Html::select` yields on the page whose tree is `root`:
/// the flagged elements in the order the parser created them. (`Html::select`
/// walks the parser's list of nodes, which also holds nodes the parser took
/// out of the tree again; those are not in the tree and so not here.)
pub open spec fn page_select(root: TreeView, flags: Seq<bool>) -> Seq<TreeView> {
    in_creation_order(select_below(root, flags))
}

/// What `Html::select(..).next()` yields on the page.
pub open spec fn page_first(root: TreeView, flags: Seq<bool>) -> Option<TreeView> {
    let m = page_select(root, flags);
    if m.len() > 0 { Some(m[0]) } else { None }
}

/// The creation rank of a node (see [`creation_rank`]).
fn node_rank(node: &DomNode) -> (r: usize)
    ensures
        r as nat == creation_rank(node.deep_view()),
{
    match &node.data {
        NodeData::Element { node_id, .. } => {
            let chars = to_chars(node_id.as_str());
            let n = chars.len();
            if n < 8 {
                return 0;
            }
            let inner = substring(&chars, 7, n - 1);
            assert(inner@ =~= node_id@.subrange(7, node_id@.len() - 1));
            match parse_usize_str(inner.as_str()) {
                Some(v) => v,
                None => 0,
            }
        }
        _ => 0,
    }
}

/// The flagged elements of the page whose root is `root`, in the order
/// the parser created them (`Html::select(..).collect()`).
pub fn select_all_in_page<'a>(root: &'a DomNode, flags: &Vec<bool>) -> (out: Vec<&'a DomNode>)
    ensures
        out.deep_view() == page_select(root.deep_view(), flags@),
{
    let all = select_all(root, flags);
    let ghost av = all.deep_view();
    let mut out: Vec<&'a DomNode> = Vec::new();
    let mut ranks: Vec<usize> = Vec::new();
    let mut i: usize = 0;
    assert(av.take(0) =~= Seq::<TreeView>::empty());
    assert(out.deep_view() =~= Seq::<TreeView>::empty());
    while i < all.len()
        invariant
            i <= all@.len(),
            av == all.deep_view(),
            ranks@.len() == out@.len(),
            forall|j: int| 0 <= j < ranks@.len() ==> ranks@[j] as nat == #[trigger] creation_rank(out.deep_view()[j]),
            out.deep_view() == in_creation_order(av.take(i as int)),
        decreases all@.len() - i,
    {
        let n = all[i];
        let r = node_rank(n);
        let ghost ov = out.deep_view();
        let ghost x = n.deep_view();
        assert(av.take(i + 1).drop_last() =~= av.take(i as int));
        assert(av.take(i + 1).last() == x);
        let mut k: usize = 0;
        while k < out.len() && !(r < ranks[k])
            invariant
                k <= out@.len(),
                ranks@.len() == out@.len(),
                ov == out.deep_view(),
                r as nat == creation_rank(x),
                forall|j: int| 0 <= j < ranks@.len() ==> ranks@[j] as nat == #[trigger] creation_rank(out.deep_view()[j]),
                rank_insert_index(ov, x, 0) == rank_insert_index(ov, x, k as int),
            decreases out@.len() - k,
        {
            assert(ranks@[k as int] as nat == creation_rank(ov[k as int]));
            k += 1;
        }
        proof {
            if k < out@.len() {
                assert(ranks@[k as int] as nat == creation_rank(ov[k as int]));
            }
        }
        let ghost rv = ranks@;
        out.insert(k, n);
        ranks.insert(k, r);
        assert(out.deep_view() =~= ov.take(k as int).push(x) + ov.skip(k as int));
        assert forall|j: int| 0 <= j < ranks@.len() implies ranks@[j] as nat == #[trigger] creation_rank(out.deep_view()[j]) by {
            if j < k {
                assert(ranks@[j] == rv[j]);
                assert(out.deep_view()[j] == ov[j]);
            } else if j > k {
                assert(ranks@[j] == rv[j - 1]);
                assert(out.deep_view()[j] == ov[j - 1]);
            }
        }
        i += 1;
    }
    assert(av.take(all@.len() as int) =~= av);
    out
}

/// The first flagged element of the page in the order the parser created
/// them (`Html::select(..).next()`).
pub fn select_first_in_page<'a>(root: &'a DomNode, flags: &Vec<bool>) -> (r: Option<&'a DomNode>)
    ensures
        r matches Some(m) ==> page_first(root.deep_view(), flags@) == Some(m.deep_view()),
        r is None ==> page_first(root.deep_view(), flags@) is None,
{
    let all = select_all_in_page(root, flags);
    if all.len() > 0 {
        assert(all.deep_view()[0] == all@[0].deep_view());
        Some(all[0])
    } else {
        None
    }
}

/// Appends the text nodes of the subtrees `nodes` to `out`.
fn collect_texts(nodes: &Vec<DomNode>, out: &mut Vec<String>)
    ensures
        final(out).deep_view() == old(out).deep_view() + texts_in_forest(nodes.deep_view()),
    decreases nodes,
{
    let ghost fv = nodes.deep_view();
    assert(fv =~= forest_view(nodes@));
    let mut i: usize = 0;
    assert(fv.take(0) =~= Seq::<TreeView>::empty());
    while i < nodes.len()
        invariant
            i <= nodes@.len(),
            fv == nodes.deep_view(),
            fv == forest_view(nodes@),
            out.deep_view() == old(out).deep_view() + texts_in_forest(fv.take(i as int)),
        decreases nodes@.len() - i,
    {
        let n = &nodes[i];
        let ghost before = out.deep_view();
        proof {
            lemma_forest_view_push(nodes@, i as int);
        }
        match &n.data {
            NodeData::Text { text } => {
                out.push(text.clone());
                assert(out.deep_view() =~= before + seq![text@]);
            }
            _ => {
                assert(before + Seq::<Seq<char>>::empty() =~= before);
            }
        }
        let ghost mid = out.deep_view();
        assert(decreases_to!(nodes => nodes@[i as int]));
        collect_texts(&n.children, out);
        assert(tree_view(n).children =~= n.children.deep_view());
        assert(fv.take(i + 1)[i as int] == tree_view(n));
        let ghost here = match tree_view(n).data { NodeView::Text { text } => seq![text], _ => Seq::<Seq<char>>::empty() };
        assert(mid == before + here);
        assert(texts_in_tree(tree_view(n)) == here + texts_in_forest(n.children.deep_view()));
        assert(texts_in_forest(fv.take(i + 1)) == texts_in_forest(fv.take(i as int)) + texts_in_tree(tree_view(n)));
        assert(out.deep_view() =~= old(out).deep_view() + texts_in_forest(fv.take(i + 1)));
        i += 1;
    }
    assert(fv.take(nodes@.len() as int) =~= fv);
}

/// The text nodes of `node`'s subtree, in tree order (`text().collect()`).
pub fn texts(node: &DomNode) -> (out: Vec<String>)
    ensures
        out.deep_view() == texts_in_tree(node.deep_view()),
{
    let mut out: Vec<String> = Vec::new();
    match &node.data {
        NodeData::Text { text } => {
            out.push(text.clone());
        }
        _ => {}
    }
    let ghost first = out.deep_view();
    collect_texts(&node.children, &mut out);
    assert(tree_view(node).children =~= node.children.deep_view());
    assert(out.deep_view() =~= texts_in_tree(node.deep_view()));
    out
}

/// All the text of `node`'s subtree, joined.
pub fn text_content(node: &DomNode) -> (out: String)
    ensures
        out@ == text_of(node.deep_view()),
{
    let parts = texts(node);
    concat_strings(&parts)
}

} // verus!
