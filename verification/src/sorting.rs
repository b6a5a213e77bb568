//! Stable sorting by a string key, as `sort_by(|a, b| a.key.cmp(&b.key))`
//! does it: each element goes after every earlier one whose key is not
//! greater than its own.
use vstd::prelude::*;
use crate::text::{lex_le, lex_lt};

verus! {

/// The index at which `x` goes into `sorted`: before the first element
/// whose key is greater than `x`'s, or at the end.
pub open spec fn insert_index<T>(sorted: Seq<T>, x: T, key: spec_fn(T) -> Seq<char>, i: int) -> int
    decreases sorted.len() - i,
{
    if i >= sorted.len() {
        sorted.len() as int
    } else if lex_lt(key(x), key(sorted[i])) {
        i
    } else {
        insert_index(sorted, x, key, i + 1)
    }
}

/// `sorted` with `x` inserted after every element whose key is not greater.
pub open spec fn insert_by_key<T>(sorted: Seq<T>, x: T, key: spec_fn(T) -> Seq<char>) -> Seq<T> {
    let k = insert_index(sorted, x, key, 0);
    sorted.take(k).push(x) + sorted.skip(k)
}

/// `s` sorted by `key`, equal keys keeping their order.
pub open spec fn sort_by_key<T>(s: Seq<T>, key: spec_fn(T) -> Seq<char>) -> Seq<T>
    decreases s.len(),
{
    if s.len() == 0 {
        Seq::empty()
    } else {
        insert_by_key(sort_by_key(s.drop_last(), key), s.last(), key)
    }
}

/// The keys of `s` never decrease.
pub open spec fn sorted_by_key<T>(s: Seq<T>, key: spec_fn(T) -> Seq<char>) -> bool {
    forall|i: int, j: int| 0 <= i < j < s.len() ==> lex_le(key(#[trigger] s[i]), key(#[trigger] s[j]))
}

/// `lex_le` is total.
pub proof fn lemma_lex_le_total(a: Seq<char>, b: Seq<char>)
    ensures
        lex_le(a, b) || lex_le(b, a),
    decreases a.len(),
{
    if a.len() > 0 && b.len() > 0 && a[0] as u32 == b[0] as u32 {
        lemma_lex_le_total(a.drop_first(), b.drop_first());
    }
}

/// `lex_le` is transitive.
pub proof fn lemma_lex_le_transitive(a: Seq<char>, b: Seq<char>, c: Seq<char>)
    requires
        lex_le(a, b),
        lex_le(b, c),
    ensures
        lex_le(a, c),
    decreases a.len(),
{
    if a.len() > 0 && b.len() > 0 && c.len() > 0 && a[0] as u32 == b[0] as u32 && b[0] as u32 == c[0] as u32 {
        lemma_lex_le_transitive(a.drop_first(), b.drop_first(), c.drop_first());
    }
}

proof fn lemma_insert_index_bounds<T>(sorted: Seq<T>, x: T, key: spec_fn(T) -> Seq<char>, i: int)
    requires
        0 <= i <= sorted.len(),
    ensures
        i <= insert_index(sorted, x, key, i) <= sorted.len(),
        forall|m: int| i <= m < insert_index(sorted, x, key, i) ==> lex_le(key(#[trigger] sorted[m]), key(x)),
        insert_index(sorted, x, key, i) < sorted.len() ==> lex_lt(key(x), key(sorted[insert_index(sorted, x, key, i)])),
    decreases sorted.len() - i,
{
    if i < sorted.len() && !lex_lt(key(x), key(sorted[i])) {
        lemma_insert_index_bounds(sorted, x, key, i + 1);
    }
}

/// Inserting by key into a sorted sequence keeps it sorted.
proof fn lemma_insert_sorted<T>(sorted: Seq<T>, x: T, key: spec_fn(T) -> Seq<char>)
    requires
        sorted_by_key(sorted, key),
    ensures
        sorted_by_key(insert_by_key(sorted, x, key), key),
{
    let k = insert_index(sorted, x, key, 0);
    lemma_insert_index_bounds(sorted, x, key, 0);
    let r = insert_by_key(sorted, x, key);
    assert(r.len() == sorted.len() + 1);
    assert forall|i: int| 0 <= i < r.len() implies #[trigger] r[i] == (if i < k { sorted[i] } else if i == k { x } else { sorted[i - 1] }) by {}
    assert forall|i: int, j: int| 0 <= i < j < r.len() implies lex_le(key(#[trigger] r[i]), key(#[trigger] r[j])) by {
        if i == k {
            // x before a later element of sorted, which is at least sorted[k] > x
            let m = j - 1;
            lemma_lex_le_total(key(x), key(sorted[k]));
            if m > k {
                lemma_lex_le_transitive(key(x), key(sorted[k]), key(sorted[m]));
            }
        } else if j == k {
            // an element before k is not greater than x
        } else if i < k && j > k {
            lemma_lex_le_total(key(x), key(sorted[k]));
            if j - 1 > k {
                lemma_lex_le_transitive(key(x), key(sorted[k]), key(sorted[j - 1]));
            }
            lemma_lex_le_transitive(key(sorted[i]), key(x), key(sorted[j - 1]));
        } else if i > k {
            assert(r[i] == sorted[i - 1] && r[j] == sorted[j - 1]);
        } else {
            assert(r[i] == sorted[i] && r[j] == sorted[j]);
        }
    }
}

/// The result of sorting is sorted.
pub proof fn lemma_sort_by_key_sorted<T>(s: Seq<T>, key: spec_fn(T) -> Seq<char>)
    ensures
        sorted_by_key(sort_by_key(s, key), key),
    decreases s.len(),
{
    if s.len() > 0 {
        lemma_sort_by_key_sorted(s.drop_last(), key);
        lemma_insert_sorted(sort_by_key(s.drop_last(), key), s.last(), key);
    }
}

/// Sorting neither loses nor adds elements.
pub proof fn lemma_sort_by_key_permutes<T>(s: Seq<T>, key: spec_fn(T) -> Seq<char>)
    ensures
        sort_by_key(s, key).to_multiset() == s.to_multiset(),
    decreases s.len(),
{
    broadcast use vstd::seq_lib::group_to_multiset_ensures;
    if s.len() == 0 {
    } else {
        lemma_sort_by_key_permutes(s.drop_last(), key);
        let sorted = sort_by_key(s.drop_last(), key);
        let k = insert_index(sorted, s.last(), key, 0);
        lemma_insert_index_bounds(sorted, s.last(), key, 0);
        assert(sorted =~= sorted.take(k) + sorted.skip(k));
        vstd::seq_lib::lemma_multiset_commutative(sorted.take(k).push(s.last()), sorted.skip(k));
        vstd::seq_lib::lemma_multiset_commutative(sorted.take(k), sorted.skip(k));
        assert(s =~= s.drop_last().push(s.last()));
    }
}

} // verus!
