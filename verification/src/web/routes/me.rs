//! `/api/me`: the fields of the student's profile page (student number,
//! semester and so on) as a map from label to value.
use vstd::prelude::*;
use crate::dom::{page_select, select_all_in_page, 
    document_tree, flags_for, parse_document, select_all, select_below, selector_matches,
    text_content, text_of, TreeView,
};
use crate::text::trim_str;
use crate::text::{lemma_trim_idempotent, trim};

verus! {

/// The trimmed texts of a list of elements.
pub open spec fn trimmed_texts(ts: Seq<TreeView>) -> Seq<Seq<char>> {
    Seq::new(ts.len(), |i: int| trim(text_of(ts[i])))
}

/// Pairs the elements of `a` and `b` up to the shorter length (`Iterator::zip`).
pub open spec fn zip_pairs(a: Seq<Seq<char>>, b: Seq<Seq<char>>) -> Seq<(Seq<char>, Seq<char>)> {
    Seq::new(if a.len() <= b.len() { a.len() } else { b.len() }, |i: int| (a[i], b[i]))
}

/// The label/value pairs of the `.contentnode`s `nodes`: the `dt`s of each
/// node paired with its `dd`s.
pub open spec fn profile_pairs(nodes: Seq<TreeView>, dt: Seq<bool>, dd: Seq<bool>) -> Seq<(Seq<char>, Seq<char>)>
    decreases nodes.len(),
{
    if nodes.len() == 0 {
        Seq::empty()
    } else {
        profile_pairs(nodes.drop_last(), dt, dd) + zip_pairs(
            trimmed_texts(select_below(nodes.last(), dt)),
            trimmed_texts(select_below(nodes.last(), dd)),
        )
    }
}

/// The map built by inserting the pairs in order, a later value for a label
/// replacing an earlier one.
pub open spec fn pairs_map(pairs: Seq<(Seq<char>, Seq<char>)>) -> Map<Seq<char>, Seq<char>>
    decreases pairs.len(),
{
    if pairs.len() == 0 {
        Map::empty()
    } else {
        pairs_map(pairs.drop_last()).insert(pairs.last().0, pairs.last().1)
    }
}

/// The profile fields of the page `html`.
pub open spec fn profile_of(html: Seq<char>) -> Map<Seq<char>, Seq<char>> {
    pairs_map(profile_pairs(
        page_select(document_tree(html), selector_matches(html, ".contentnode"@)),
        selector_matches(html, "dt"@),
        selector_matches(html, "dd"@),
    ))
}

/// No label occurs twice.
pub open spec fn unique_labels(entries: Seq<(Seq<char>, Seq<char>)>) -> bool {
    forall|i: int, j: int| 0 <= i < j < entries.len() ==> (#[trigger] entries[i]).0 != (#[trigger] entries[j]).0
}

proof fn lemma_map_of_unique_update(entries: Seq<(Seq<char>, Seq<char>)>, k: int, v: Seq<char>)
    requires
        unique_labels(entries),
        0 <= k < entries.len(),
    ensures
        unique_labels(entries.update(k, (entries[k].0, v))),
        pairs_map(entries.update(k, (entries[k].0, v))) == pairs_map(entries).insert(entries[k].0, v),
    decreases entries.len(),
{
    let u = entries.update(k, (entries[k].0, v));
    assert(unique_labels(u)) by {
        assert forall|i: int, j: int| 0 <= i < j < u.len() implies (#[trigger] u[i]).0 != (#[trigger] u[j]).0 by {
            assert(u[i].0 == entries[i].0 && u[j].0 == entries[j].0);
        }
    }
    if k == entries.len() - 1 {
        assert(u.drop_last() =~= entries.drop_last());
        assert(pairs_map(u) =~= pairs_map(entries).insert(entries[k].0, v)) by {
            lemma_key_not_in_prefix(entries, k);
        }
    } else {
        let e2 = entries.drop_last();
        assert(unique_labels(e2));
        lemma_map_of_unique_update(e2, k, v);
        assert(u.drop_last() =~= e2.update(k, (e2[k].0, v)));
        assert(entries.last().0 != entries[k].0);
        assert(pairs_map(u) =~= pairs_map(entries).insert(entries[k].0, v));
    }
}

proof fn lemma_key_not_in_prefix(entries: Seq<(Seq<char>, Seq<char>)>, k: int)
    requires
        unique_labels(entries),
        0 <= k < entries.len(),
    ensures
        !pairs_map(entries.take(k)).dom().contains(entries[k].0),
        pairs_map(entries.take(k + 1)) == pairs_map(entries.take(k)).insert(entries[k].0, entries[k].1),
{
    lemma_pairs_map_dom(entries.take(k));
    assert(entries.take(k + 1).drop_last() =~= entries.take(k));
    if entries.drop_last() =~= entries.take(k) {
    }
}

proof fn lemma_pairs_map_dom(entries: Seq<(Seq<char>, Seq<char>)>)
    ensures
        forall|key: Seq<char>| #[trigger] pairs_map(entries).dom().contains(key) ==> exists|i: int| 0 <= i < entries.len() && entries[i].0 == key,
    decreases entries.len(),
{
    if entries.len() > 0 {
        lemma_pairs_map_dom(entries.drop_last());
        assert forall|key: Seq<char>| #[trigger] pairs_map(entries).dom().contains(key) implies exists|i: int| 0 <= i < entries.len() && entries[i].0 == key by {
            if key == entries.last().0 {
                assert(entries[entries.len() - 1].0 == key);
            } else {
                assert(pairs_map(entries.drop_last()).dom().contains(key));
                let i = choose|i: int| 0 <= i < entries.drop_last().len() && entries.drop_last()[i].0 == key;
                assert(entries.drop_last()[i] == entries[i]);
                assert(entries[i].0 == key);
            }
        }
    }
}


/// Sets `key` to `value` in the association list `entries`: the entry with
/// that label gets the new value, or a new entry is appended.
pub fn insert_entry(entries: &mut Vec<(String, String)>, key: String, value: String)
    requires
        unique_labels(old(entries).deep_view()),
    ensures
        unique_labels(final(entries).deep_view()),
        pairs_map(final(entries).deep_view()) == pairs_map(old(entries).deep_view()).insert(key@, value@),
{
    let ghost ev = entries.deep_view();
    let mut k: usize = 0;
    while k < entries.len()
        invariant
            k <= entries@.len(),
            ev == entries.deep_view(),
            ev == old(entries).deep_view(),
            unique_labels(ev),
            forall|j: int| 0 <= j < k ==> ev[j].0 != key@,
        decreases entries@.len() - k,
    {
        if entries[k].0 == key {
            assert(ev[k as int].0 == key@);
            proof {
                lemma_map_of_unique_update(ev, k as int, value@);
            }
            entries.set(k, (key, value));
            assert(entries.deep_view() =~= ev.update(k as int, (ev[k as int].0, value@)));
            return;
        }
        k += 1;
    }
    entries.push((key, value));
    assert(entries.deep_view().drop_last() =~= ev);
    assert(unique_labels(entries.deep_view())) by {
        let nv = entries.deep_view();
        assert forall|i: int, j: int| 0 <= i < j < nv.len() implies (#[trigger] nv[i]).0 != (#[trigger] nv[j]).0 by {
            if j == nv.len() - 1 {
                assert(nv[i] == ev[i]);
            } else {
                assert(nv[i] == ev[i] && nv[j] == ev[j]);
            }
        }
    }
}

/// Reads the profile page into label/value entries (no label twice) whose
/// map is [`profile_of`].
pub fn profile_fields(html: &str) -> (out: Vec<(String, String)>)
    ensures
        unique_labels(out.deep_view()),
        pairs_map(out.deep_view()) == profile_of(html@),
{
    let document = parse_document(html);
    let node_flags = flags_for(&document, ".contentnode");
    let dt_flags = flags_for(&document, "dt");
    let dd_flags = flags_for(&document, "dd");
    let nodes = select_all_in_page(&document.root, &node_flags);
    let ghost nv = nodes.deep_view();
    let mut out: Vec<(String, String)> = Vec::new();
    let mut n: usize = 0;
    assert(nv.take(0) =~= Seq::<TreeView>::empty());
    assert(pairs_map(out.deep_view()) =~= Map::empty());
    while n < nodes.len()
        invariant
            n <= nodes@.len(),
            nv == nodes.deep_view(),
            unique_labels(out.deep_view()),
            pairs_map(out.deep_view()) == pairs_map(profile_pairs(nv.take(n as int), dt_flags@, dd_flags@)),
        decreases nodes@.len() - n,
    {
        let node = nodes[n];
        let dts = select_all(node, &dt_flags);
        let dds = select_all(node, &dd_flags);
        let m = if dts.len() <= dds.len() { dts.len() } else { dds.len() };
        let ghost prefix = profile_pairs(nv.take(n as int), dt_flags@, dd_flags@);
        let ghost z = zip_pairs(trimmed_texts(dts.deep_view()), trimmed_texts(dds.deep_view()));
        assert(nv.take(n + 1).drop_last() =~= nv.take(n as int));
        assert(nv.take(n + 1).last() == node.deep_view());
        assert(profile_pairs(nv.take(n + 1), dt_flags@, dd_flags@) == prefix + z);
        let mut i: usize = 0;
        assert(prefix + z.take(0) =~= prefix);
        while i < m
            invariant
                i <= m,
                m == z.len(),
                m <= dts@.len(),
                m <= dds@.len(),
                z == zip_pairs(trimmed_texts(dts.deep_view()), trimmed_texts(dds.deep_view())),
                unique_labels(out.deep_view()),
                pairs_map(out.deep_view()) == pairs_map(prefix + z.take(i as int)),
            decreases m - i,
        {
            let kt = text_content(dts[i]);
            let key = trim_str(kt.as_str());
            let vt = text_content(dds[i]);
            let value = trim_str(vt.as_str());
            assert(dts.deep_view()[i as int] == dts@[i as int].deep_view());
            assert(dds.deep_view()[i as int] == dds@[i as int].deep_view());
            assert(z[i as int] == (key@, value@));
            assert((prefix + z.take(i + 1)).drop_last() =~= prefix + z.take(i as int));
            insert_entry(&mut out, key, value);
            i += 1;
        }
        assert(z.take(m as int) =~= z);
        n += 1;
    }
    assert(nv.take(nodes@.len() as int) =~= nv);
    out
}


/// The pair `p` is the trimmed text of the `j`-th `dt` and the trimmed text
/// of the `j`-th `dd` of one of the `.contentnode`s `nodes`.
pub open spec fn read_from_node(nodes: Seq<TreeView>, dt: Seq<bool>, dd: Seq<bool>, p: (Seq<char>, Seq<char>)) -> bool {
    exists|n: int, j: int|
        0 <= n < nodes.len() && 0 <= j < select_below(nodes[n], dt).len() && j < select_below(nodes[n], dd).len()
            && p.0 == trim(text_of(#[trigger] select_below(nodes[n], dt)[j]))
            && p.1 == trim(text_of(select_below(nodes[n], dd)[j]))
}

/// Each label/value pair read from the `.contentnode`s `nodes` is read from
/// one of them (see [`read_from_node`]).
pub proof fn lemma_profile_pairs_source(nodes: Seq<TreeView>, dt: Seq<bool>, dd: Seq<bool>)
    ensures
        forall|i: int| 0 <= i < profile_pairs(nodes, dt, dd).len()
            ==> read_from_node(nodes, dt, dd, #[trigger] profile_pairs(nodes, dt, dd)[i]),
    decreases nodes.len(),
{
    if nodes.len() > 0 {
        let pre = nodes.drop_last();
        lemma_profile_pairs_source(pre, dt, dd);
        let ps = profile_pairs(nodes, dt, dd);
        let pp = profile_pairs(pre, dt, dd);
        let last = nodes.len() - 1;
        let a = select_below(nodes[last], dt);
        let b = select_below(nodes[last], dd);
        let z = zip_pairs(trimmed_texts(a), trimmed_texts(b));
        assert(ps == pp + z);
        assert forall|i: int| 0 <= i < ps.len() implies read_from_node(nodes, dt, dd, #[trigger] ps[i]) by {
            if i < pp.len() {
                assert(ps[i] == pp[i]);
                assert(read_from_node(pre, dt, dd, pp[i]));
                let (n, j) = choose|n: int, j: int|
                    0 <= n < pre.len() && 0 <= j < select_below(pre[n], dt).len() && j < select_below(pre[n], dd).len()
                        && pp[i].0 == trim(text_of(#[trigger] select_below(pre[n], dt)[j]))
                        && pp[i].1 == trim(text_of(select_below(pre[n], dd)[j]));
                assert(pre[n] == nodes[n]);
                assert(ps[i].0 == trim(text_of(select_below(nodes[n], dt)[j])));
            } else {
                let j = i - pp.len();
                assert(ps[i] == z[j]);
                assert(z[j] == (trimmed_texts(a)[j], trimmed_texts(b)[j]));
                assert(ps[i].0 == trim(text_of(select_below(nodes[last], dt)[j])));
            }
        }
    }
}

proof fn lemma_pairs_map_value_from(entries: Seq<(Seq<char>, Seq<char>)>, key: Seq<char>)
    requires
        pairs_map(entries).dom().contains(key),
    ensures
        exists|i: int| 0 <= i < entries.len() && (#[trigger] entries[i]).0 == key && entries[i].1 == pairs_map(entries)[key],
    decreases entries.len(),
{
    let l = entries.len() - 1;
    if entries[l].0 == key {
        assert(pairs_map(entries)[key] == entries[l].1);
    } else {
        let pre = entries.drop_last();
        lemma_pairs_map_value_from(pre, key);
        let i = choose|i: int| 0 <= i < pre.len() && (#[trigger] pre[i]).0 == key && pre[i].1 == pairs_map(pre)[key];
        assert(pre[i] == entries[i]);
    }
}

/// Every field of the profile page is a label and a value read from one
/// `.contentnode`: the trimmed text of its `j`-th `dt` and the trimmed text
/// of its `j`-th `dd`. So labels and values hold no leading or trailing
/// whitespace.
pub proof fn lemma_profile_fields_are_trimmed_pairs(html: Seq<char>)
    ensures
        forall|key: Seq<char>| #[trigger] profile_of(html).dom().contains(key) ==> {
            &&& trim(key) == key
            &&& trim(profile_of(html)[key]) == profile_of(html)[key]
            &&& read_from_node(
                page_select(document_tree(html), selector_matches(html, ".contentnode"@)),
                selector_matches(html, "dt"@),
                selector_matches(html, "dd"@),
                (key, profile_of(html)[key]),
            )
        },
{
    let nodes = page_select(document_tree(html), selector_matches(html, ".contentnode"@));
    let dt = selector_matches(html, "dt"@);
    let dd = selector_matches(html, "dd"@);
    let ps = profile_pairs(nodes, dt, dd);
    lemma_profile_pairs_source(nodes, dt, dd);
    assert forall|key: Seq<char>| #[trigger] profile_of(html).dom().contains(key) implies {
        &&& trim(key) == key
        &&& trim(profile_of(html)[key]) == profile_of(html)[key]
        &&& read_from_node(nodes, dt, dd, (key, profile_of(html)[key]))
    } by {
        lemma_pairs_map_value_from(ps, key);
        let i = choose|i: int| 0 <= i < ps.len() && (#[trigger] ps[i]).0 == key && ps[i].1 == pairs_map(ps)[key];
        assert(read_from_node(nodes, dt, dd, ps[i]));
        assert(ps[i] == (key, profile_of(html)[key]));
        let (n, j) = choose|n: int, j: int|
            0 <= n < nodes.len() && 0 <= j < select_below(nodes[n], dt).len() && j < select_below(nodes[n], dd).len()
                && ps[i].0 == trim(text_of(#[trigger] select_below(nodes[n], dt)[j]))
                && ps[i].1 == trim(text_of(select_below(nodes[n], dd)[j]));
        lemma_trim_idempotent(text_of(select_below(nodes[n], dt)[j]));
        lemma_trim_idempotent(text_of(select_below(nodes[n], dd)[j]));
    }
}

} // verus!
