//! `/api/course_grades`: the grade report of a course as a tree of
//! categories and grade items.
use vstd::prelude::*;
use crate::dom::{page_select, select_all_in_page, 
    first_below, flags_for, is_element, node_is_element, parse_document, select_all,
    select_below, select_first, selector_matches, text_content, text_of, document_tree,
    DomNode, Document, NodeData, NodeView, TreeView,
};
use crate::errors::{ErrorResponse, ErrorView};
use crate::web::routes::{check_not_redirected, redirect_check};
use crate::text::{
    copy_str, has_prefix, parse_usize, parse_usize_str, replace, replace_all, starts_with,
    strip_leading, strip_leading_str, trim, trim_str,
};

verus! {

/// A node of the grade report: a category or a grade item, with the columns
/// of its row. `level` is the depth Moodle gives the row; it is not part of
/// the JSON answer.
#[derive(Debug, PartialEq, Eq)]
pub struct GradeNode {
    pub level: usize,
    pub is_category: bool,
    pub name: String,
    pub weight: String,
    pub grade: String,
    pub range: String,
    pub percentage: String,
    pub letter_grade: String,
    pub feedback: String,
    pub contribution: String,
    pub children: Vec<GradeNode>,
}

/// One row of the grade table, before nesting.
#[derive(Debug, PartialEq, Eq)]
pub struct ParsedRow {
    pub level: usize,
    pub is_category: bool,
    pub name: String,
    pub weight: String,
    pub grade: String,
    pub range: String,
    pub percentage: String,
    pub letter_grade: String,
    pub feedback: String,
    pub contribution: String,
}

/// The mathematical value of a [`ParsedRow`].
pub struct RowView {
    pub level: nat,
    pub is_category: bool,
    pub name: Seq<char>,
    pub weight: Seq<char>,
    pub grade: Seq<char>,
    pub range: Seq<char>,
    pub percentage: Seq<char>,
    pub letter_grade: Seq<char>,
    pub feedback: Seq<char>,
    pub contribution: Seq<char>,
}

impl DeepView for ParsedRow {
    type V = RowView;

    open spec fn deep_view(&self) -> RowView {
        RowView {
            level: self.level as nat,
            is_category: self.is_category,
            name: self.name@,
            weight: self.weight@,
            grade: self.grade@,
            range: self.range@,
            percentage: self.percentage@,
            letter_grade: self.letter_grade@,
            feedback: self.feedback@,
            contribution: self.contribution@,
        }
    }
}

/// The mathematical value of a [`GradeNode`]: its row and its children.
pub struct GradeView {
    pub row: RowView,
    pub children: Seq<GradeView>,
}

/// The value of a grade node and of all its descendants.
pub open spec fn grade_view(n: &GradeNode) -> GradeView
    decreases n,
{
    GradeView {
        row: RowView {
            level: n.level as nat,
            is_category: n.is_category,
            name: n.name@,
            weight: n.weight@,
            grade: n.grade@,
            range: n.range@,
            percentage: n.percentage@,
            letter_grade: n.letter_grade@,
            feedback: n.feedback@,
            contribution: n.contribution@,
        },
        children: Seq::new(
            n.children@.len(),
            |i: int| if 0 <= i < n.children@.len() { grade_view(&n.children@[i]) } else { arbitrary() },
        ),
    }
}

impl DeepView for GradeNode {
    type V = GradeView;

    open spec fn deep_view(&self) -> GradeView {
        grade_view(self)
    }
}

// ------------------------------------------------------------------
// Nesting rows into a tree
// ------------------------------------------------------------------

/// The end of the block of rows that row `i` heads inside `rows[i..to]`:
/// the first later row whose level is not greater than row `i`'s, or `to`.
pub open spec fn block_end(rows: Seq<RowView>, i: int, j: int, to: int) -> int
    decreases to - j,
{
    if j >= to {
        to
    } else if rows[j].level <= rows[i].level {
        j
    } else {
        block_end(rows, i, j + 1, to)
    }
}

/// The forest of the rows `rows[from..to]`: each row heads a node whose
/// children are the rows after it up to the first one whose level is not
/// greater; that row starts the next sibling.
pub open spec fn forest_of(rows: Seq<RowView>, from: int, to: int) -> Seq<GradeView>
    decreases to - from,
{
    if from >= to {
        Seq::empty()
    } else {
        let k = block_end(rows, from, from + 1, to);
        if from < k <= to {
            seq![GradeView { row: rows[from], children: forest_of(rows, from + 1, k) }]
                + forest_of(rows, k, to)
        } else {
            Seq::empty()
        }
    }
}

/// The forest of all the rows.
pub open spec fn grade_forest(rows: Seq<RowView>) -> Seq<GradeView> {
    forest_of(rows, 0, rows.len() as int)
}

proof fn lemma_block_end_bounds(rows: Seq<RowView>, i: int, j: int, to: int)
    requires
        j <= to,
    ensures
        j <= block_end(rows, i, j, to) <= to,
        forall|m: int| j <= m < block_end(rows, i, j, to) ==> rows[m].level > rows[i].level,
        block_end(rows, i, j, to) < to ==> rows[block_end(rows, i, j, to)].level <= rows[i].level,
    decreases to - j,
{
    if j < to && rows[j].level > rows[i].level {
        lemma_block_end_bounds(rows, i, j + 1, to);
    }
}

fn clone_row_into_node(r: &ParsedRow, children: Vec<GradeNode>) -> (n: GradeNode)
    ensures
        n.deep_view().row == r.deep_view(),
        n.children@ == children@,
{
    GradeNode {
        level: r.level,
        is_category: r.is_category,
        name: r.name.clone(),
        weight: r.weight.clone(),
        grade: r.grade.clone(),
        range: r.range.clone(),
        percentage: r.percentage.clone(),
        letter_grade: r.letter_grade.clone(),
        feedback: r.feedback.clone(),
        contribution: r.contribution.clone(),
        children,
    }
}

/// Builds the forest of `rows[from..to]` (see [`forest_of`]).
fn build_forest(rows: &Vec<ParsedRow>, from: usize, to: usize) -> (out: Vec<GradeNode>)
    requires
        from <= to <= rows@.len(),
    ensures
        out.deep_view() == forest_of(rows.deep_view(), from as int, to as int),
    decreases to - from,
{
    let ghost rv = rows.deep_view();
    let mut out: Vec<GradeNode> = Vec::new();
    let mut i = from;
    while i < to
        invariant
            from <= i <= to <= rows@.len(),
            rv == rows.deep_view(),
            forest_of(rv, from as int, to as int) == out.deep_view() + forest_of(rv, i as int, to as int),
        decreases to - i,
    {
        let mut k = i + 1;
        while k < to && rows[k].level > rows[i].level
            invariant
                i < k <= to <= rows@.len(),
                rv == rows.deep_view(),
                block_end(rv, i as int, i + 1, to as int) == block_end(rv, i as int, k as int, to as int),
            decreases to - k,
        {
            k += 1;
        }
        proof {
            lemma_block_end_bounds(rv, i as int, i + 1, to as int);
        }
        let children = build_forest(rows, i + 1, k);
        let node = clone_row_into_node(&rows[i], children);
        assert(node.deep_view().children =~= children.deep_view());
        let ghost before = out.deep_view();
        out.push(node);
        assert(out.deep_view() =~= before + seq![node.deep_view()]);
        assert(forest_of(rv, i as int, to as int) == seq![node.deep_view()] + forest_of(rv, k as int, to as int));
        i = k;
    }
    assert(out.deep_view() + forest_of(rv, to as int, to as int) =~= out.deep_view());
    out
}

/// Nests the rows of the grade table into a forest (see [`grade_forest`]).
pub fn build_grade_tree(rows: &Vec<ParsedRow>) -> (out: Vec<GradeNode>)
    ensures
        out.deep_view() == grade_forest(rows.deep_view()),
{
    build_forest(rows, 0, rows.len())
}


// ------------------------------------------------------------------
// What the nesting keeps
// ------------------------------------------------------------------

/// The rows of a grade tree in pre-order.
pub open spec fn flat_tree(g: GradeView) -> Seq<RowView>
    decreases g,
{
    seq![g.row] + flat_forest(g.children)
}

/// The rows of a grade forest in pre-order.
pub open spec fn flat_forest(gs: Seq<GradeView>) -> Seq<RowView>
    decreases gs,
{
    if gs.len() == 0 {
        Seq::empty()
    } else {
        flat_forest(gs.drop_last()) + flat_tree(gs[gs.len() - 1])
    }
}

/// Every node's children have a greater level than the node, all the way down.
pub open spec fn nested_tree(g: GradeView) -> bool
    decreases g,
{
    &&& forall|i: int| 0 <= i < g.children.len() ==> (#[trigger] g.children[i]).row.level > g.row.level
    &&& forall|i: int| 0 <= i < g.children.len() ==> nested_tree(#[trigger] g.children[i])
}

/// Every tree of the forest is nested.
pub open spec fn nested_forest(gs: Seq<GradeView>) -> bool {
    forall|i: int| 0 <= i < gs.len() ==> nested_tree(#[trigger] gs[i])
}

proof fn lemma_flat_forest_append(a: Seq<GradeView>, b: Seq<GradeView>)
    ensures
        flat_forest(a + b) == flat_forest(a) + flat_forest(b),
    decreases b.len(),
{
    if b.len() == 0 {
        assert(a + b =~= a);
    } else {
        lemma_flat_forest_append(a, b.drop_last());
        assert((a + b).drop_last() =~= a + b.drop_last());
        assert((a + b)[(a + b).len() - 1] == b[b.len() - 1]);
    }
}

proof fn lemma_forest_of_preorder(rows: Seq<RowView>, from: int, to: int)
    requires
        0 <= from <= to <= rows.len(),
    ensures
        flat_forest(forest_of(rows, from, to)) == rows.subrange(from, to),
    decreases to - from,
{
    if from < to {
        let k = block_end(rows, from, from + 1, to);
        lemma_block_end_bounds(rows, from, from + 1, to);
        lemma_forest_of_preorder(rows, from + 1, k);
        lemma_forest_of_preorder(rows, k, to);
        let node = GradeView { row: rows[from], children: forest_of(rows, from + 1, k) };
        lemma_flat_forest_append(seq![node], forest_of(rows, k, to));
        assert(seq![node].drop_last() =~= Seq::<GradeView>::empty());
        assert(flat_forest(Seq::<GradeView>::empty()) =~= Seq::<RowView>::empty());
        assert(seq![node][0] == node);
        assert(flat_forest(seq![node]) =~= flat_forest(Seq::<GradeView>::empty()) + flat_tree(node));
        assert(rows.subrange(from, to) =~= seq![rows[from]] + rows.subrange(from + 1, k) + rows.subrange(k, to));
    } else {
        assert(rows.subrange(from, to) =~= Seq::<RowView>::empty());
    }
}

proof fn lemma_forest_of_roots_above(rows: Seq<RowView>, from: int, to: int, level: nat)
    requires
        0 <= from <= to <= rows.len(),
        forall|m: int| from <= m < to ==> rows[m].level > level,
    ensures
        forall|i: int| 0 <= i < forest_of(rows, from, to).len() ==> (#[trigger] forest_of(rows, from, to)[i]).row.level > level,
    decreases to - from,
{
    if from < to {
        let k = block_end(rows, from, from + 1, to);
        lemma_block_end_bounds(rows, from, from + 1, to);
        lemma_forest_of_roots_above(rows, k, to, level);
        let f = forest_of(rows, from, to);
        let rest = forest_of(rows, k, to);
        assert forall|i: int| 0 <= i < f.len() implies (#[trigger] f[i]).row.level > level by {
            if i > 0 {
                assert(f[i] == rest[i - 1]);
            }
        }
    }
}

proof fn lemma_forest_of_nested(rows: Seq<RowView>, from: int, to: int)
    requires
        0 <= from <= to <= rows.len(),
    ensures
        nested_forest(forest_of(rows, from, to)),
    decreases to - from,
{
    if from < to {
        let k = block_end(rows, from, from + 1, to);
        lemma_block_end_bounds(rows, from, from + 1, to);
        lemma_forest_of_nested(rows, from + 1, k);
        lemma_forest_of_nested(rows, k, to);
        lemma_forest_of_roots_above(rows, from + 1, k, rows[from].level);
        let node = GradeView { row: rows[from], children: forest_of(rows, from + 1, k) };
        assert(nested_tree(node));
        let f = forest_of(rows, from, to);
        let rest = forest_of(rows, k, to);
        assert forall|i: int| 0 <= i < f.len() implies nested_tree(#[trigger] f[i]) by {
            if i > 0 {
                assert(f[i] == rest[i - 1]);
            }
        }
    }
}

/// Nesting loses no row and reorders none: the pre-order of the grade tree
/// is the table's row order.
pub proof fn lemma_grade_tree_preorder(rows: Seq<RowView>)
    ensures
        flat_forest(grade_forest(rows)) == rows,
{
    lemma_forest_of_preorder(rows, 0, rows.len() as int);
    assert(rows.subrange(0, rows.len() as int) =~= rows);
}

/// In the grade tree every child has a greater level than its parent.
pub proof fn lemma_grade_tree_levels(rows: Seq<RowView>)
    ensures
        nested_forest(grade_forest(rows)),
{
    lemma_forest_of_nested(rows, 0, rows.len() as int);
}


// ------------------------------------------------------------------
// Reading the grade table
// ------------------------------------------------------------------

/// The selector matches the grade report needs.
pub struct GradeSelectors {
    pub rows: Seq<bool>,
    pub th: Seq<bool>,
    pub category_name: Seq<bool>,
    pub item_name: Seq<bool>,
    pub weight: Seq<bool>,
    pub grade: Seq<bool>,
    pub range: Seq<bool>,
    pub percentage: Seq<bool>,
    pub letter_grade: Seq<bool>,
    pub feedback: Seq<bool>,
    pub contribution: Seq<bool>,
}

/// The selector matches of the grade report on the page `html`.
pub open spec fn grade_selectors(html: Seq<char>) -> GradeSelectors {
    GradeSelectors {
        rows: selector_matches(html, "table.user-grade tbody tr"@),
        th: selector_matches(html, "th.column-itemname"@),
        category_name: selector_matches(html, "div.category-content > span"@),
        item_name: selector_matches(html, ".gradeitemheader, .rowtitle"@),
        weight: selector_matches(html, "td.column-weight"@),
        grade: selector_matches(html, "td.column-grade"@),
        range: selector_matches(html, "td.column-range"@),
        percentage: selector_matches(html, "td.column-percentage"@),
        letter_grade: selector_matches(html, "td.column-lettergrade"@),
        feedback: selector_matches(html, "td.column-feedback"@),
        contribution: selector_matches(html, "td.column-contributiontocoursetotal"@),
    }
}

/// The classes of an element, as `scraper` lists them.
pub open spec fn classes_of(t: TreeView) -> Seq<Seq<char>> {
    match t.data {
        NodeView::Element { classes, .. } => classes,
        _ => Seq::empty(),
    }
}

/// The level named by the first class that starts with `level` (as in
/// `level2`), or 0 when there is none or it is not followed by a number.
pub open spec fn level_from_classes(cs: Seq<Seq<char>>) -> nat
    decreases cs.len(),
{
    if cs.len() == 0 {
        0
    } else if has_prefix(cs[0], "level"@) {
        match parse_usize(strip_leading(cs[0], "level"@)) {
            Some(v) => v,
            None => 0,
        }
    } else {
        level_from_classes(cs.drop_first())
    }
}

/// The element has exactly the class `c`.
pub open spec fn has_exact_class(t: TreeView, c: Seq<char>) -> bool {
    exists|i: int| 0 <= i < classes_of(t).len() && #[trigger] classes_of(t)[i] == c
}

/// The trimmed text of the first match of `flags` below `t`, with no-break
/// spaces turned into spaces; empty when nothing matches.
pub open spec fn column_text(t: TreeView, flags: Seq<bool>) -> Seq<char> {
    match first_below(t, flags) {
        Some(el) => trim(replace_all(text_of(el), seq!['\u{a0}'], seq![' '])),
        None => Seq::empty(),
    }
}

/// The row read from the table row `tr` whose name cell is `th`.
pub open spec fn row_of(tr: TreeView, th: TreeView, s: GradeSelectors) -> RowView {
    let is_category = has_exact_class(th, "category"@);
    let name_el = first_below(th, if is_category { s.category_name } else { s.item_name });
    RowView {
        level: level_from_classes(classes_of(th)),
        is_category,
        name: match name_el {
            Some(el) => trim(text_of(el)),
            None => Seq::empty(),
        },
        weight: column_text(tr, s.weight),
        grade: column_text(tr, s.grade),
        range: column_text(tr, s.range),
        percentage: column_text(tr, s.percentage),
        letter_grade: column_text(tr, s.letter_grade),
        feedback: column_text(tr, s.feedback),
        contribution: column_text(tr, s.contribution),
    }
}

/// The rows read from the table rows `trs`: spacer rows and rows without a
/// name cell are skipped.
pub open spec fn rows_of(trs: Seq<TreeView>, s: GradeSelectors) -> Seq<RowView>
    decreases trs.len(),
{
    if trs.len() == 0 {
        Seq::empty()
    } else {
        let tr = trs.last();
        rows_of(trs.drop_last(), s) + if has_exact_class(tr, "spacer"@) {
            Seq::empty()
        } else {
            match first_below(tr, s.th) {
                Some(th) => seq![row_of(tr, th, s)],
                None => Seq::empty(),
            }
        }
    }
}

/// The grade report of the page `html`: its rows, nested by level.
pub open spec fn moodle_grades(html: Seq<char>) -> Seq<GradeView> {
    let s = grade_selectors(html);
    grade_forest(rows_of(page_select(document_tree(html), s.rows), s))
}

/// The flags of [`grade_selectors`], computed.
struct GradeFlags {
    rows: Vec<bool>,
    th: Vec<bool>,
    category_name: Vec<bool>,
    item_name: Vec<bool>,
    weight: Vec<bool>,
    grade: Vec<bool>,
    range: Vec<bool>,
    percentage: Vec<bool>,
    letter_grade: Vec<bool>,
    feedback: Vec<bool>,
    contribution: Vec<bool>,
}

impl GradeFlags {
    spec fn view_of(&self) -> GradeSelectors {
        GradeSelectors {
            rows: self.rows@,
            th: self.th@,
            category_name: self.category_name@,
            item_name: self.item_name@,
            weight: self.weight@,
            grade: self.grade@,
            range: self.range@,
            percentage: self.percentage@,
            letter_grade: self.letter_grade@,
            feedback: self.feedback@,
            contribution: self.contribution@,
        }
    }
}

fn classes_ref(node: &DomNode) -> (r: Option<&Vec<String>>)
    ensures
        r matches Some(cs) ==> cs.deep_view() == classes_of(node.deep_view()),
        r is None ==> classes_of(node.deep_view()) == Seq::<Seq<char>>::empty(),
{
    match &node.data {
        NodeData::Element { classes, .. } => Some(classes),
        _ => None,
    }
}

fn has_exact_class_exec(node: &DomNode, c: &str) -> (b: bool)
    ensures
        b == has_exact_class(node.deep_view(), c@),
{
    match classes_ref(node) {
        None => false,
        Some(cs) => {
            let ghost cv = cs.deep_view();
            let mut i: usize = 0;
            while i < cs.len()
                invariant
                    i <= cs@.len(),
                    cv == cs.deep_view(),
                    cv == classes_of(node.deep_view()),
                    forall|j: int| 0 <= j < i ==> cv[j] != c@,
                decreases cs@.len() - i,
            {
                let wanted = c.to_owned();
                if cs[i] == wanted {
                    assert(cv[i as int] == c@);
                    return true;
                }
                i += 1;
            }
            false
        }
    }
}

fn level_of(node: &DomNode) -> (level: usize)
    ensures
        level as nat == level_from_classes(classes_of(node.deep_view())),
{
    proof {
        reveal_strlit("level");
    }
    match classes_ref(node) {
        None => 0,
        Some(cs) => {
            let ghost cv = cs.deep_view();
            let mut i: usize = 0;
            assert(cv.skip(0) =~= cv);
            while i < cs.len()
                invariant
                    i <= cs@.len(),
                    cv == cs.deep_view(),
                    level_from_classes(cv) == level_from_classes(cv.skip(i as int)),
                    level_from_classes(cv) == level_from_classes(classes_of(node.deep_view())),
                    "level"@.len() > 0,
                decreases cs@.len() - i,
            {
                assert(cv.skip(i as int)[0] == cs@[i as int]@);
                if starts_with(cs[i].as_str(), "level") {
                    let digits = strip_leading_str(cs[i].as_str(), "level");
                    return match parse_usize_str(digits.as_str()) {
                        Some(v) => v,
                        None => 0,
                    };
                }
                assert(cv.skip(i as int).drop_first() =~= cv.skip(i + 1));
                i += 1;
            }
            0
        }
    }
}

fn column_text_exec(tr: &DomNode, flags: &Vec<bool>) -> (s: String)
    ensures
        s@ == column_text(tr.deep_view(), flags@),
{
    proof {
        reveal_strlit("\u{a0}");
        reveal_strlit(" ");
        assert("\u{a0}"@ =~= seq!['\u{a0}']);
        assert(" "@ =~= seq![' ']);
    }
    match select_first(tr, flags) {
        Some(el) => {
            let text = text_content(el);
            let spaced = replace(text.as_str(), "\u{a0}", " ");
            trim_str(spaced.as_str())
        }
        None => String::new(),
    }
}

fn row_of_exec(tr: &DomNode, th: &DomNode, f: &GradeFlags) -> (r: ParsedRow)
    ensures
        r.deep_view() == row_of(tr.deep_view(), th.deep_view(), f.view_of()),
{
    let level = level_of(th);
    let is_category = has_exact_class_exec(th, "category");
    let name_el = if is_category { select_first(th, &f.category_name) } else { select_first(th, &f.item_name) };
    let name = match name_el {
        Some(el) => {
            let t = text_content(el);
            trim_str(t.as_str())
        }
        None => String::new(),
    };
    ParsedRow {
        level,
        is_category,
        name,
        weight: column_text_exec(tr, &f.weight),
        grade: column_text_exec(tr, &f.grade),
        range: column_text_exec(tr, &f.range),
        percentage: column_text_exec(tr, &f.percentage),
        letter_grade: column_text_exec(tr, &f.letter_grade),
        feedback: column_text_exec(tr, &f.feedback),
        contribution: column_text_exec(tr, &f.contribution),
    }
}

/// Reads the grade report of a course page into a tree (see [`moodle_grades`]).
pub fn parse_moodle_grades(html_content: &str) -> (out: Vec<GradeNode>)
    ensures
        out.deep_view() == moodle_grades(html_content@),
{
    let document = parse_document(html_content);
    let f = GradeFlags {
        rows: flags_for(&document, "table.user-grade tbody tr"),
        th: flags_for(&document, "th.column-itemname"),
        category_name: flags_for(&document, "div.category-content > span"),
        item_name: flags_for(&document, ".gradeitemheader, .rowtitle"),
        weight: flags_for(&document, "td.column-weight"),
        grade: flags_for(&document, "td.column-grade"),
        range: flags_for(&document, "td.column-range"),
        percentage: flags_for(&document, "td.column-percentage"),
        letter_grade: flags_for(&document, "td.column-lettergrade"),
        feedback: flags_for(&document, "td.column-feedback"),
        contribution: flags_for(&document, "td.column-contributiontocoursetotal"),
    };
    assert(f.view_of() == grade_selectors(html_content@));
    let trs = select_all_in_page(&document.root, &f.rows);
    let ghost tv = trs.deep_view();
    let mut flat_rows: Vec<ParsedRow> = Vec::new();
    let mut i: usize = 0;
    assert(tv.take(0) =~= Seq::<TreeView>::empty());
    while i < trs.len()
        invariant
            i <= trs@.len(),
            tv == trs.deep_view(),
            flat_rows.deep_view() == rows_of(tv.take(i as int), f.view_of()),
        decreases trs@.len() - i,
    {
        let tr = trs[i];
        let ghost before = flat_rows.deep_view();
        assert(tv.take(i + 1).drop_last() =~= tv.take(i as int));
        assert(tv.take(i + 1).last() == tr.deep_view());
        if !has_exact_class_exec(tr, "spacer") {
            match select_first(tr, &f.th) {
                Some(th) => {
                    let row = row_of_exec(tr, th, &f);
                    flat_rows.push(row);
                    assert(flat_rows.deep_view() =~= before + seq![row.deep_view()]);
                }
                None => {
                    assert(before + Seq::<RowView>::empty() =~= before);
                }
            }
        } else {
            assert(before + Seq::<RowView>::empty() =~= before);
        }
        i += 1;
    }
    assert(tv.take(trs@.len() as int) =~= tv);
    build_grade_tree(&flat_rows)
}


/// The address of a course's grade report.
pub fn grades_page_url(course_id: &str) -> (url: String)
    ensures
        url@ == "https://ekursy.put.poznan.pl/grade/report/user/index.php?id="@ + course_id@,
{
    let mut url = copy_str("https://ekursy.put.poznan.pl/grade/report/user/index.php?id=");
    url.append(course_id);
    url
}


/// What a fetch of a grade report gives: a fetch that did not end on the
/// report's page is a session that has expired; a body that could not be
/// read (`None`) is invalid data; otherwise the page's HTML.
pub open spec fn grades_html_of(final_url: Seq<char>, course_id: Seq<char>, page: Option<Seq<char>>) -> Result<Seq<char>, ErrorView> {
    match redirect_check(final_url, "https://ekursy.put.poznan.pl/grade/report/user/index.php?id="@ + course_id) {
        Err(e) => Err(e),
        Ok(_) => match page {
            None => Err(ErrorView::REMOTE_SERVER_SENT_INVALID_DATA("ekursy course response couldnt be parsed"@)),
            Some(html) => Ok(html),
        },
    }
}

/// The HTML of a fetched grade report (see [`grades_html_of`]).
pub fn get_course_grades_html(final_url: &str, course_id: &str, page: Option<String>) -> (r: Result<String, ErrorResponse>)
    ensures
        match r {
            Ok(h) => grades_html_of(final_url@, course_id@, page.deep_view()) == Ok::<Seq<char>, ErrorView>(h@),
            Err(e) => grades_html_of(final_url@, course_id@, page.deep_view()) == Err::<Seq<char>, ErrorView>(e.deep_view()),
        },
{
    let url = grades_page_url(course_id);
    check_not_redirected(final_url, url.as_str())?;
    match page {
        None => Err(ErrorResponse::REMOTE_SERVER_SENT_INVALID_DATA(copy_str("ekursy course response couldnt be parsed"))),
        Some(html) => Ok(html),
    }
}


proof fn lemma_level_from_first_level_class(cs: Seq<Seq<char>>, k: int)
    requires
        0 <= k < cs.len(),
        has_prefix(cs[k], "level"@),
        forall|j: int| 0 <= j < k ==> !has_prefix(#[trigger] cs[j], "level"@),
    ensures
        level_from_classes(cs) == match parse_usize(strip_leading(cs[k], "level"@)) {
            Some(v) => v,
            None => 0nat,
        },
    decreases k,
{
    if k > 0 {
        assert(!has_prefix(cs[0], "level"@));
        assert forall|j: int| 0 <= j < k - 1 implies !has_prefix(#[trigger] cs.drop_first()[j], "level"@) by {
            assert(cs.drop_first()[j] == cs[j + 1]);
        }
        lemma_level_from_first_level_class(cs.drop_first(), k - 1);
    }
}

proof fn lemma_level_without_level_class(cs: Seq<Seq<char>>)
    requires
        forall|j: int| 0 <= j < cs.len() ==> !has_prefix(#[trigger] cs[j], "level"@),
    ensures
        level_from_classes(cs) == 0,
    decreases cs.len(),
{
    if cs.len() > 0 {
        assert(!has_prefix(cs[0], "level"@));
        assert forall|j: int| 0 <= j < cs.len() - 1 implies !has_prefix(#[trigger] cs.drop_first()[j], "level"@) by {
            assert(cs.drop_first()[j] == cs[j + 1]);
        }
        lemma_level_without_level_class(cs.drop_first());
    }
}

/// A row's level is the number after the first class of its name cell that
/// starts with `level` (with every leading `level` removed, as
/// `trim_start_matches` does), so `level2 leveleven` gives 2; it is 0 when
/// that rest is not a number or no class starts with `level`.
pub proof fn lemma_row_level_is_first_level_class(tr: TreeView, th: TreeView, s: GradeSelectors)
    ensures
        forall|k: int| 0 <= k < classes_of(th).len() && has_prefix(#[trigger] classes_of(th)[k], "level"@)
            && (forall|j: int| 0 <= j < k ==> !has_prefix(#[trigger] classes_of(th)[j], "level"@))
            ==> row_of(tr, th, s).level == match parse_usize(strip_leading(classes_of(th)[k], "level"@)) {
                Some(v) => v,
                None => 0nat,
            },
        (forall|j: int| 0 <= j < classes_of(th).len() ==> !has_prefix(#[trigger] classes_of(th)[j], "level"@))
            ==> row_of(tr, th, s).level == 0,
{
    let cs = classes_of(th);
    assert forall|k: int| 0 <= k < cs.len() && has_prefix(#[trigger] cs[k], "level"@)
        && (forall|j: int| 0 <= j < k ==> !has_prefix(#[trigger] cs[j], "level"@))
        implies row_of(tr, th, s).level == match parse_usize(strip_leading(cs[k], "level"@)) {
            Some(v) => v,
            None => 0nat,
        } by {
        lemma_level_from_first_level_class(cs, k);
    }
    if forall|j: int| 0 <= j < cs.len() ==> !has_prefix(#[trigger] cs[j], "level"@) {
        lemma_level_without_level_class(cs);
    }
}

} // verus!
