//! The canonical rendering of a parameter set.
//!
//! The signature is computed over text, so a parameter set must always be
//! written the same way: as `name=value` pairs in ascending order of name,
//! joined by `&`.

use crate::lexical::{
    lemma_str_lt_asymmetric, lemma_str_lt_irreflexive, lemma_str_lt_total,
    lemma_str_lt_transitive, str_le, str_lt,
};
use crate::params::{
    entries_map, has_key, key_index, keys_distinct, lemma_key_index_unique, lemma_put_is_insert,
    lemma_put_keeps_distinct, pair_view, pairs_view, put, Entry, ParamSet,
};
use itertools::Itertools;
use vstd::prelude::*;

verus! {

/// `a` is not after `b` when pairs are compared by name, then by value.
pub open spec fn entry_le(a: Entry, b: Entry) -> bool {
    str_lt(a.0, b.0) || (a.0 == b.0 && str_le(a.1, b.1))
}

/// The names of `s` strictly ascend.
pub open spec fn ascending(s: Seq<Entry>) -> bool {
    forall|i: int, j: int| 0 <= i < j < s.len() ==> str_lt((#[trigger] s[i]).0, (#[trigger] s[j]).0)
}

/// `s` lists the entries of `m` in ascending order of name.
pub open spec fn is_canonical_order(s: Seq<Entry>, m: Map<Seq<char>, Seq<char>>) -> bool {
    ascending(s) && entries_map(s) == m
}

/// The entries of `m` in ascending order of name.
pub open spec fn canonical_entries(m: Map<Seq<char>, Seq<char>>) -> Seq<Entry> {
    choose|s: Seq<Entry>| is_canonical_order(s, m)
}

/// One entry as text: name, `=`, value.
pub open spec fn pair_text(e: Entry) -> Seq<char> {
    e.0 + seq!['='] + e.1
}

/// The entries of `s` as text, in order, with one `&` between neighbours.
pub open spec fn joined(s: Seq<Entry>) -> Seq<char>
    decreases s.len(),
{
    if s.len() == 0 {
        Seq::empty()
    } else if s.len() == 1 {
        pair_text(s[0])
    } else {
        joined(s.drop_last()) + seq!['&'] + pair_text(s.last())
    }
}

/// The canonical query string of the parameter set `m`.
pub open spec fn canonical_query(m: Map<Seq<char>, Seq<char>>) -> Seq<char> {
    joined(canonical_entries(m))
}

/// `s` with `e` put in before the first entry whose name comes after
/// its own.
pub open spec fn placed(s: Seq<Entry>, e: Entry) -> Seq<Entry>
    decreases s.len(),
{
    if s.len() == 0 {
        seq![e]
    } else if str_lt(e.0, s[0].0) {
        seq![e] + s
    } else {
        seq![s[0]] + placed(s.drop_first(), e)
    }
}

/// The entries of `s` put in place one after the other.
pub open spec fn arranged(s: Seq<Entry>) -> Seq<Entry>
    decreases s.len(),
{
    if s.len() == 0 {
        s
    } else {
        placed(arranged(s.drop_last()), s.last())
    }
}

/// How often `c` occurs in `text`.
pub open spec fn occurrences(text: Seq<char>, c: char) -> nat
    decreases text.len(),
{
    if text.len() == 0 {
        0
    } else {
        occurrences(text.drop_last(), c) + if text.last() == c {
            1nat
        } else {
            0nat
        }
    }
}

/// How often `c` occurs in the names and values of `s`.
pub open spec fn entry_occurrences(s: Seq<Entry>, c: char) -> nat
    decreases s.len(),
{
    if s.len() == 0 {
        0
    } else {
        entry_occurrences(s.drop_last(), c) + occurrences(s.last().0, c) + occurrences(
            s.last().1,
            c,
        )
    }
}

/// `text` holds neither `&` nor `=`.
pub open spec fn is_plain(text: Seq<char>) -> bool {
    forall|i: int| 0 <= i < text.len() ==> #[trigger] text[i] != '&' && text[i] != '='
}

/// No name and no value of `s` holds `&` or `=`.
pub open spec fn all_plain(s: Seq<Entry>) -> bool {
    forall|i: int| 0 <= i < s.len() ==> is_plain((#[trigger] s[i]).0) && is_plain(s[i].1)
}

/// Sorts pairs of strings with `itertools::Itertools::sorted`.
///
/// `sorted` collects the items and sorts them with `slice::sort` under the
/// items' own order. For pairs of strings that order compares the first
/// strings and, where they are equal, the second; strings are compared
/// position by position by code point. The contract claims that the result
/// holds the same pairs as the argument, each as often, and that no pair in
/// it comes after a later one.
#[verifier::external_body]
fn sorted_pairs(pairs: Vec<(String, String)>) -> (sorted: Vec<(String, String)>)
    ensures
        pairs_view(sorted@).to_multiset() == pairs_view(pairs@).to_multiset(),
        forall|i: int, j: int|
            0 <= i < j < sorted@.len() ==> entry_le(
                pair_view(#[trigger] sorted@[i]),
                pair_view(#[trigger] sorted@[j]),
            ),
{
    pairs.into_iter().sorted().collect()
}

/// Text of the entries `s`, written to a fresh string.
fn join_pairs(sorted: &Vec<(String, String)>) -> (text: String)
    ensures
        text@ == joined(pairs_view(sorted@)),
{
    let ghost s = pairs_view(sorted@);
    let mut text = String::new();
    let mut i: usize = 0;
    while i < sorted.len()
        invariant
            i <= sorted.len(),
            s == pairs_view(sorted@),
            text@ == joined(s.take(i as int)),
        decreases sorted.len() - i,
    {
        proof {
            reveal_strlit("&");
            reveal_strlit("=");
            assert(s.take(i + 1).drop_last() =~= s.take(i as int));
            assert(s.take(i + 1).last() == s[i as int]);
        }
        if i > 0 {
            text.append("&");
        }
        text.append(sorted[i].0.as_str());
        text.append("=");
        text.append(sorted[i].1.as_str());
        i += 1;
        assert(text@ =~= joined(s.take(i as int)));
    }
    assert(s.take(sorted.len() as int) =~= s);
    text
}

impl ParamSet {
    /// The canonical query string: every entry as `name=value`, in
    /// ascending order of name, with `&` between neighbours and nowhere else.
    pub fn canonical_query(&self) -> (query: String)
        ensures
            query@ == canonical_query(self@),
    {
        let pairs = self.to_vec();
        let sorted = sorted_pairs(pairs);
        proof {
            let s = pairs_view(sorted@);
            lemma_same_pairs_same_map(self.entries(), s);
            assert(ascending(s)) by {
                assert forall|i: int, j: int| 0 <= i < j < s.len() implies str_lt(
                    (#[trigger] s[i]).0,
                    (#[trigger] s[j]).0,
                ) by {
                    assert(entry_le(pair_view(sorted@[i]), pair_view(sorted@[j])));
                    assert(s[i].0 != s[j].0);
                }
            }
            lemma_canonical_entries(s, self@);
        }
        join_pairs(&sorted)
    }
}

/// Ascending names are distinct names.
pub proof fn lemma_ascending_distinct(s: Seq<Entry>)
    requires
        ascending(s),
    ensures
        keys_distinct(s),
{
    assert forall|i: int, j: int| 0 <= i < j < s.len() implies (#[trigger] s[i]).0 != (
    #[trigger] s[j]).0 by {
        lemma_str_lt_irreflexive(s[i].0);
    }
}

/// Two sequences that hold the same pairs, each as often, stand for the
/// same mapping, and names that are distinct in one are distinct in the other.
pub proof fn lemma_same_pairs_same_map(a: Seq<Entry>, b: Seq<Entry>)
    requires
        keys_distinct(a),
        a.to_multiset() == b.to_multiset(),
    ensures
        keys_distinct(b),
        entries_map(a) == entries_map(b),
{
    broadcast use vstd::seq_lib::group_to_multiset_ensures;

    assert(a.no_duplicates()) by {
        assert forall|i: int, j: int|
            (0 <= i < a.len() && 0 <= j < a.len() && i != j) implies a[i] != a[j] by {
            if i < j {
                assert(a[i].0 != a[j].0);
            } else {
                assert(a[j].0 != a[i].0);
            }
        }
    }
    a.lemma_multiset_has_no_duplicates();
    b.lemma_multiset_has_no_duplicates_conv();
    assert forall|x: Entry| a.contains(x) <==> b.contains(x) by {
        assert(a.contains(x) <==> a.to_multiset().count(x) > 0);
        assert(b.contains(x) <==> b.to_multiset().count(x) > 0);
    }
    assert forall|i: int, j: int| 0 <= i < j < b.len() implies (#[trigger] b[i]).0 != (
    #[trigger] b[j]).0 by {
        if b[i].0 == b[j].0 {
            assert(b.contains(b[i]));
            assert(b.contains(b[j]));
            let p = choose|p: int| 0 <= p < a.len() && a[p] == b[i];
            let q = choose|q: int| 0 <= q < a.len() && a[q] == b[j];
            lemma_key_index_unique(a, p);
            lemma_key_index_unique(a, q);
            assert(b[i] == b[j]);
        }
    }
    let ma = entries_map(a);
    let mb = entries_map(b);
    assert forall|k: Seq<char>| ma.dom().contains(k) <==> mb.dom().contains(k) by {
        if has_key(a, k) {
            let i = key_index(a, k);
            assert(a.contains(a[i]));
            let j = choose|j: int| 0 <= j < b.len() && b[j] == a[i];
            assert(b[j].0 == k);
        }
        if has_key(b, k) {
            let i = key_index(b, k);
            assert(b.contains(b[i]));
            let j = choose|j: int| 0 <= j < a.len() && a[j] == b[i];
            assert(a[j].0 == k);
        }
    }
    assert forall|k: Seq<char>| ma.dom().contains(k) implies ma[k] == mb[k] by {
        let i = key_index(a, k);
        assert(a.contains(a[i]));
        let j = choose|j: int| 0 <= j < b.len() && b[j] == a[i];
        lemma_key_index_unique(b, j);
    }
    assert(ma =~= mb);
}

/// Dropping the first entry removes its name from the mapping.
proof fn lemma_drop_first_map(s: Seq<Entry>)
    requires
        keys_distinct(s),
        s.len() > 0,
    ensures
        keys_distinct(s.drop_first()),
        entries_map(s.drop_first()) == entries_map(s).remove(s[0].0),
{
    let t = s.drop_first();
    assert forall|i: int, j: int| 0 <= i < j < t.len() implies (#[trigger] t[i]).0 != (
    #[trigger] t[j]).0 by {
        assert(s[i + 1].0 != s[j + 1].0);
    }
    let a = entries_map(t);
    let b = entries_map(s).remove(s[0].0);
    assert forall|k: Seq<char>| a.dom().contains(k) <==> b.dom().contains(k) by {
        if has_key(t, k) {
            let i = key_index(t, k);
            assert(s[i + 1].0 == k);
            assert(s[0].0 != s[i + 1].0);
        }
        if has_key(s, k) && k != s[0].0 {
            let i = key_index(s, k);
            assert(t[i - 1].0 == k);
        }
    }
    assert forall|k: Seq<char>| a.dom().contains(k) implies a[k] == b[k] by {
        let i = key_index(t, k);
        lemma_key_index_unique(t, i);
        assert(s[i + 1].0 == k);
        lemma_key_index_unique(s, i + 1);
    }
    assert(a =~= b);
}

/// A parameter set has one canonical order: two ascending sequences that
/// stand for the same mapping are the same sequence.
pub proof fn lemma_canonical_order_unique(a: Seq<Entry>, b: Seq<Entry>)
    requires
        ascending(a),
        ascending(b),
        entries_map(a) == entries_map(b),
    ensures
        a == b,
    decreases a.len(),
{
    lemma_ascending_distinct(a);
    lemma_ascending_distinct(b);
    if a.len() == 0 {
        if b.len() > 0 {
            assert(has_key(b, b[0].0));
            assert(entries_map(b).dom().contains(b[0].0));
            assert(has_key(a, b[0].0));
        }
        assert(a =~= b);
    } else {
        assert(has_key(a, a[0].0));
        assert(entries_map(a).dom().contains(a[0].0));
        assert(has_key(b, a[0].0));
        let j = key_index(b, a[0].0);
        assert(has_key(b, b[0].0));
        assert(entries_map(b).dom().contains(b[0].0));
        assert(has_key(a, b[0].0));
        let i = key_index(a, b[0].0);
        if j != 0 {
            assert(str_lt(b[0].0, b[j].0));
            if i != 0 {
                assert(str_lt(a[0].0, a[i].0));
                lemma_str_lt_asymmetric(a[0].0, b[0].0);
            } else {
                lemma_str_lt_irreflexive(a[0].0);
            }
        }
        assert(a[0].0 == b[0].0);
        lemma_key_index_unique(a, 0);
        lemma_key_index_unique(b, 0);
        assert(entries_map(a)[a[0].0] == a[0].1);
        assert(entries_map(b)[b[0].0] == b[0].1);
        assert(a[0] == b[0]);
        lemma_drop_first_map(a);
        lemma_drop_first_map(b);
        let ta = a.drop_first();
        let tb = b.drop_first();
        assert(ascending(ta)) by {
            assert forall|p: int, q: int| 0 <= p < q < ta.len() implies str_lt(
                (#[trigger] ta[p]).0,
                (#[trigger] ta[q]).0,
            ) by {
                assert(str_lt(a[p + 1].0, a[q + 1].0));
            }
        }
        assert(ascending(tb)) by {
            assert forall|p: int, q: int| 0 <= p < q < tb.len() implies str_lt(
                (#[trigger] tb[p]).0,
                (#[trigger] tb[q]).0,
            ) by {
                assert(str_lt(b[p + 1].0, b[q + 1].0));
            }
        }
        lemma_canonical_order_unique(ta, tb);
        assert(a =~= seq![a[0]] + ta);
        assert(b =~= seq![b[0]] + tb);
    }
}

/// Any ascending listing of a parameter set is its canonical one.
pub proof fn lemma_canonical_entries(s: Seq<Entry>, m: Map<Seq<char>, Seq<char>>)
    requires
        is_canonical_order(s, m),
    ensures
        canonical_entries(m) == s,
{
    let c = canonical_entries(m);
    assert(is_canonical_order(c, m));
    lemma_canonical_order_unique(c, s);
}

/// Putting an entry with a new name in place keeps the names ascending
/// and adds that entry and no other.
proof fn lemma_placed(s: Seq<Entry>, e: Entry)
    requires
        ascending(s),
        !has_key(s, e.0),
    ensures
        ascending(placed(s, e)),
        placed(s, e).len() == s.len() + 1,
        placed(s, e).to_multiset() == s.to_multiset().insert(e),
        forall|i: int|
            0 <= i < placed(s, e).len() ==> #[trigger] placed(s, e)[i] == e || s.contains(
                placed(s, e)[i],
            ),
    decreases s.len(),
{
    broadcast use vstd::seq_lib::group_to_multiset_ensures;

    let r = placed(s, e);
    if s.len() == 0 {
        assert(s =~= Seq::<Entry>::empty());
        assert(r =~= Seq::<Entry>::empty().push(e));
    } else if str_lt(e.0, s[0].0) {
        assert forall|i: int, j: int| 0 <= i < j < r.len() implies str_lt(
            (#[trigger] r[i]).0,
            (#[trigger] r[j]).0,
        ) by {
            if i == 0 {
                if j > 1 {
                    assert(str_lt(s[0].0, s[j - 1].0));
                    lemma_str_lt_transitive(e.0, s[0].0, s[j - 1].0);
                }
            } else {
                assert(str_lt(s[i - 1].0, s[j - 1].0));
            }
        }
        assert forall|i: int| 0 <= i < r.len() implies #[trigger] r[i] == e || s.contains(
            r[i],
        ) by {
            if i > 0 {
                assert(r[i] == s[i - 1]);
            }
        }
        vstd::seq_lib::lemma_multiset_commutative(seq![e], s);
        assert(seq![e] =~= Seq::<Entry>::empty().push(e));
        assert(seq![e].to_multiset() =~= Seq::<Entry>::empty().to_multiset().insert(e));
        assert(r.to_multiset() =~= s.to_multiset().insert(e));
    } else {
        let tail = s.drop_first();
        let inner = placed(tail, e);
        assert(ascending(tail)) by {
            assert forall|i: int, j: int| 0 <= i < j < tail.len() implies str_lt(
                (#[trigger] tail[i]).0,
                (#[trigger] tail[j]).0,
            ) by {
                assert(str_lt(s[i + 1].0, s[j + 1].0));
            }
        }
        assert(!has_key(tail, e.0)) by {
            if has_key(tail, e.0) {
                let i = choose|i: int| 0 <= i < tail.len() && (#[trigger] tail[i]).0 == e.0;
                assert(s[i + 1].0 == e.0);
            }
        }
        lemma_placed(tail, e);
        assert(s[0].0 != e.0);
        lemma_str_lt_total(e.0, s[0].0);
        assert(str_lt(s[0].0, e.0));
        assert forall|i: int, j: int| 0 <= i < j < r.len() implies str_lt(
            (#[trigger] r[i]).0,
            (#[trigger] r[j]).0,
        ) by {
            if i == 0 {
                let x = inner[j - 1];
                assert(r[j] == x);
                if x != e {
                    assert(tail.contains(x));
                    let k = choose|k: int| 0 <= k < tail.len() && tail[k] == x;
                    assert(str_lt(s[0].0, s[k + 1].0));
                }
            } else {
                assert(str_lt(inner[i - 1].0, inner[j - 1].0));
            }
        }
        assert forall|i: int| 0 <= i < r.len() implies #[trigger] r[i] == e || s.contains(
            r[i],
        ) by {
            if i == 0 {
                assert(r[0] == s[0]);
            } else {
                let x = inner[i - 1];
                assert(r[i] == x);
                if x != e {
                    assert(tail.contains(x));
                    let k = choose|k: int| 0 <= k < tail.len() && tail[k] == x;
                    assert(s[k + 1] == x);
                }
            }
        }
        vstd::seq_lib::lemma_multiset_commutative(seq![s[0]], inner);
        vstd::seq_lib::lemma_multiset_commutative(seq![s[0]], tail);
        assert(s =~= seq![s[0]] + tail);
        assert(r.to_multiset() =~= s.to_multiset().insert(e));
    }
}

/// Putting the entries in place one after the other lists the same pairs
/// in ascending order of name.
pub proof fn lemma_arranged(s: Seq<Entry>)
    requires
        keys_distinct(s),
    ensures
        ascending(arranged(s)),
        arranged(s).to_multiset() == s.to_multiset(),
        is_canonical_order(arranged(s), entries_map(s)),
    decreases s.len(),
{
    broadcast use vstd::seq_lib::group_to_multiset_ensures;

    if s.len() > 0 {
        let head = s.drop_last();
        let e = s.last();
        assert(keys_distinct(head)) by {
            assert forall|i: int, j: int| 0 <= i < j < head.len() implies (#[trigger] head[i]).0
                != (#[trigger] head[j]).0 by {
                assert(s[i].0 != s[j].0);
            }
        }
        lemma_arranged(head);
        let a = arranged(head);
        assert(!has_key(a, e.0)) by {
            if has_key(a, e.0) {
                let i = choose|i: int| 0 <= i < a.len() && (#[trigger] a[i]).0 == e.0;
                assert(a.contains(a[i]));
                assert(head.to_multiset().count(a[i]) > 0);
                assert(head.contains(a[i]));
                let j = choose|j: int| 0 <= j < head.len() && head[j] == a[i];
                assert(s[j].0 != s[s.len() - 1].0);
            }
        }
        lemma_placed(a, e);
        assert(s =~= head.push(e));
    }
    lemma_same_pairs_same_map(s, arranged(s));
}

/// Every parameter set has a canonical order.
pub proof fn lemma_canonical_order_exists(s: Seq<Entry>)
    requires
        keys_distinct(s),
    ensures
        is_canonical_order(canonical_entries(entries_map(s)), entries_map(s)),
        canonical_entries(entries_map(s)) == arranged(s),
{
    lemma_arranged(s);
    lemma_canonical_entries(arranged(s), entries_map(s));
}

/// The canonical query does not depend on the order in which the entries
/// are held: two sequences with the same pairs give the same text.
pub proof fn lemma_query_ignores_order(a: Seq<Entry>, b: Seq<Entry>)
    requires
        keys_distinct(a),
        a.to_multiset() == b.to_multiset(),
    ensures
        canonical_query(entries_map(a)) == canonical_query(entries_map(b)),
{
    lemma_same_pairs_same_map(a, b);
}

/// The canonical query does not depend on the order of insertion: giving
/// values to two different names in either order leads to the same text.
pub proof fn lemma_query_ignores_insertion_order(
    s: Seq<Entry>,
    k1: Seq<char>,
    v1: Seq<char>,
    k2: Seq<char>,
    v2: Seq<char>,
)
    requires
        keys_distinct(s),
        k1 != k2,
    ensures
        canonical_query(entries_map(put(put(s, k1, v1), k2, v2))) == canonical_query(
            entries_map(put(put(s, k2, v2), k1, v1)),
        ),
{
    lemma_put_keeps_distinct(s, k1, v1);
    lemma_put_keeps_distinct(s, k2, v2);
    lemma_put_is_insert(s, k1, v1);
    lemma_put_is_insert(s, k2, v2);
    lemma_put_is_insert(put(s, k1, v1), k2, v2);
    lemma_put_is_insert(put(s, k2, v2), k1, v1);
    assert(entries_map(s).insert(k1, v1).insert(k2, v2) =~= entries_map(s).insert(k2, v2).insert(
        k1,
        v1,
    ));
}

/// The text of a non-empty sequence starts with its first entry and ends
/// with its last.
pub proof fn lemma_joined_ends(s: Seq<Entry>)
    requires
        s.len() > 0,
    ensures
        joined(s).len() >= pair_text(s[0]).len(),
        joined(s).len() >= pair_text(s.last()).len(),
        joined(s).subrange(0, pair_text(s[0]).len() as int) == pair_text(s[0]),
        joined(s).subrange(joined(s).len() - pair_text(s.last()).len(), joined(s).len() as int)
            == pair_text(s.last()),
    decreases s.len(),
{
    if s.len() == 1 {
        assert(joined(s).subrange(0, pair_text(s[0]).len() as int) =~= pair_text(s[0]));
    } else {
        let head = s.drop_last();
        lemma_joined_ends(head);
        assert(head[0] == s[0]);
        let t = joined(s);
        let first = pair_text(s[0]);
        let last = pair_text(s.last());
        assert(t.subrange(0, first.len() as int) =~= joined(head).subrange(0, first.len() as int));
        assert(t.subrange(t.len() - last.len(), t.len() as int) =~= last);
    }
}

/// The canonical query neither starts nor ends with `&`, unless the first
/// name itself starts with `&` or the last value itself ends with it.
pub proof fn lemma_no_outer_separator(m: Map<Seq<char>, Seq<char>>)
    requires
        ({
            let s = canonical_entries(m);
            s.len() > 0 ==> {
                &&& s[0].0.len() > 0 ==> s[0].0.first() != '&'
                &&& s.last().1.len() > 0 ==> s.last().1.last() != '&'
            }
        }),
    ensures
        canonical_query(m).len() > 0 ==> canonical_query(m).first() != '&' && canonical_query(
            m,
        ).last() != '&',
{
    let s = canonical_entries(m);
    let q = canonical_query(m);
    if s.len() > 0 {
        lemma_joined_ends(s);
        let first = pair_text(s[0]);
        let last = pair_text(s.last());
        assert(q.first() == q.subrange(0, first.len() as int)[0]);
        assert(first[0] == if s[0].0.len() > 0 {
            s[0].0.first()
        } else {
            '='
        });
        assert(q.last() == q.subrange(q.len() - last.len(), q.len() as int)[last.len() - 1]);
        assert(last.last() == if s.last().1.len() > 0 {
            s.last().1.last()
        } else {
            '='
        });
    }
}

/// Occurrences add up over concatenation.
pub proof fn lemma_occurrences_concat(a: Seq<char>, b: Seq<char>, c: char)
    ensures
        occurrences(a + b, c) == occurrences(a, c) + occurrences(b, c),
    decreases b.len(),
{
    if b.len() == 0 {
        assert(a + b =~= a);
    } else {
        assert((a + b).drop_last() =~= a + b.drop_last());
        lemma_occurrences_concat(a, b.drop_last(), c);
    }
}

/// A text in which `c` is at no position holds it zero times.
pub proof fn lemma_occurrences_none(text: Seq<char>, c: char)
    requires
        forall|i: int| 0 <= i < text.len() ==> text[i] != c,
    ensures
        occurrences(text, c) == 0,
    decreases text.len(),
{
    if text.len() > 0 {
        lemma_occurrences_none(text.drop_last(), c);
    }
}

/// The text of `s` holds the characters of its names and values, one `=`
/// for every entry and one `&` for every entry but the first.
pub proof fn lemma_joined_occurrences(s: Seq<Entry>, c: char)
    ensures
        occurrences(joined(s), c) == entry_occurrences(s, c) + (if c == '=' {
            s.len()
        } else {
            0
        }) + (if c == '&' && s.len() > 0 {
            (s.len() - 1) as nat
        } else {
            0
        }),
    decreases s.len(),
{
    if s.len() > 0 {
        let e = s.last();
        let eq = seq!['='];
        assert(occurrences(eq, c) == if c == '=' {
            1nat
        } else {
            0nat
        }) by {
            assert(eq.drop_last() =~= Seq::<char>::empty());
            reveal_with_fuel(occurrences, 2);
        }
        lemma_occurrences_concat(e.0, eq, c);
        lemma_occurrences_concat(e.0 + eq, e.1, c);
        if s.len() == 1 {
            assert(s.drop_last() =~= Seq::<Entry>::empty());
            assert(entry_occurrences(s.drop_last(), c) == 0);
        } else {
            let amp = seq!['&'];
            assert(occurrences(amp, c) == if c == '&' {
                1nat
            } else {
                0nat
            }) by {
                assert(amp.drop_last() =~= Seq::<char>::empty());
                reveal_with_fuel(occurrences, 2);
            }
            lemma_joined_occurrences(s.drop_last(), c);
            lemma_occurrences_concat(joined(s.drop_last()), amp, c);
            lemma_occurrences_concat(joined(s.drop_last()) + amp, pair_text(e), c);
        }
    }
}

/// An entry in front adds its characters.
proof fn lemma_entry_occurrences_front(e: Entry, s: Seq<Entry>, c: char)
    ensures
        entry_occurrences(seq![e] + s, c) == occurrences(e.0, c) + occurrences(e.1, c)
            + entry_occurrences(s, c),
    decreases s.len(),
{
    let t = seq![e] + s;
    if s.len() == 0 {
        assert(t.drop_last() =~= Seq::<Entry>::empty());
        assert(entry_occurrences(t.drop_last(), c) == 0);
    } else {
        assert(t.drop_last() =~= seq![e] + s.drop_last());
        lemma_entry_occurrences_front(e, s.drop_last(), c);
    }
}

/// Putting an entry in place adds its characters.
proof fn lemma_placed_occurrences(s: Seq<Entry>, e: Entry, c: char)
    ensures
        entry_occurrences(placed(s, e), c) == entry_occurrences(s, c) + occurrences(e.0, c)
            + occurrences(e.1, c),
    decreases s.len(),
{
    if s.len() == 0 {
        assert(s =~= Seq::<Entry>::empty());
        lemma_entry_occurrences_front(e, s, c);
        assert(seq![e] + s =~= seq![e]);
    } else if str_lt(e.0, s[0].0) {
        lemma_entry_occurrences_front(e, s, c);
    } else {
        lemma_placed_occurrences(s.drop_first(), e, c);
        lemma_entry_occurrences_front(s[0], placed(s.drop_first(), e), c);
        lemma_entry_occurrences_front(s[0], s.drop_first(), c);
        assert(s =~= seq![s[0]] + s.drop_first());
    }
}

/// Putting the entries in order keeps their characters.
proof fn lemma_arranged_occurrences(s: Seq<Entry>, c: char)
    ensures
        entry_occurrences(arranged(s), c) == entry_occurrences(s, c),
        arranged(s).len() == s.len(),
    decreases s.len(),
{
    if s.len() > 0 {
        lemma_arranged_occurrences(s.drop_last(), c);
        lemma_placed_occurrences(arranged(s.drop_last()), s.last(), c);
        lemma_placed_len(arranged(s.drop_last()), s.last());
    }
}

/// Putting an entry in place makes the sequence one longer.
proof fn lemma_placed_len(s: Seq<Entry>, e: Entry)
    ensures
        placed(s, e).len() == s.len() + 1,
    decreases s.len(),
{
    if s.len() > 0 && !str_lt(e.0, s[0].0) {
        lemma_placed_len(s.drop_first(), e);
    }
}

/// The canonical query changes with the characters of the parameters: two
/// sets of equal size whose names and values hold some character a
/// different number of times have different queries.
pub proof fn lemma_query_counts_characters(a: Seq<Entry>, b: Seq<Entry>, c: char)
    requires
        keys_distinct(a),
        keys_distinct(b),
        a.len() == b.len(),
        entry_occurrences(a, c) != entry_occurrences(b, c),
    ensures
        canonical_query(entries_map(a)) != canonical_query(entries_map(b)),
{
    lemma_canonical_order_exists(a);
    lemma_canonical_order_exists(b);
    lemma_arranged_occurrences(a, c);
    lemma_arranged_occurrences(b, c);
    lemma_joined_occurrences(arranged(a), c);
    lemma_joined_occurrences(arranged(b), c);
}

/// Replacing one character of a text by another makes the new character
/// occur once more.
pub proof fn lemma_replaced_character(text: Seq<char>, at: int, c: char)
    requires
        0 <= at < text.len(),
        text[at] != c,
    ensures
        occurrences(text.update(at, c), c) == occurrences(text, c) + 1,
    decreases text.len(),
{
    let changed = text.update(at, c);
    if at == text.len() - 1 {
        assert(changed.drop_last() =~= text.drop_last());
    } else {
        assert(changed.drop_last() =~= text.drop_last().update(at, c));
        lemma_replaced_character(text.drop_last(), at, c);
    }
}

/// Replacing one character in one value makes the new character occur once
/// more among the parameters.
pub proof fn lemma_replaced_in_value(s: Seq<Entry>, entry: int, at: int, c: char)
    requires
        0 <= entry < s.len(),
        0 <= at < s[entry].1.len(),
        s[entry].1[at] != c,
    ensures
        entry_occurrences(s.update(entry, (s[entry].0, s[entry].1.update(at, c))), c)
            == entry_occurrences(s, c) + 1,
    decreases s.len(),
{
    let changed = s.update(entry, (s[entry].0, s[entry].1.update(at, c)));
    if entry == s.len() - 1 {
        assert(changed.drop_last() =~= s.drop_last());
        lemma_replaced_character(s[entry].1, at, c);
    } else {
        assert(changed.drop_last() =~= s.drop_last().update(
            entry,
            (s[entry].0, s[entry].1.update(at, c)),
        ));
        lemma_replaced_in_value(s.drop_last(), entry, at, c);
    }
}

/// Replacing one character in one name makes the new character occur once
/// more among the parameters.
pub proof fn lemma_replaced_in_name(s: Seq<Entry>, entry: int, at: int, c: char)
    requires
        0 <= entry < s.len(),
        0 <= at < s[entry].0.len(),
        s[entry].0[at] != c,
    ensures
        entry_occurrences(s.update(entry, (s[entry].0.update(at, c), s[entry].1)), c)
            == entry_occurrences(s, c) + 1,
    decreases s.len(),
{
    let changed = s.update(entry, (s[entry].0.update(at, c), s[entry].1));
    if entry == s.len() - 1 {
        assert(changed.drop_last() =~= s.drop_last());
        lemma_replaced_character(s[entry].0, at, c);
    } else {
        assert(changed.drop_last() =~= s.drop_last().update(
            entry,
            (s[entry].0.update(at, c), s[entry].1),
        ));
        lemma_replaced_in_name(s.drop_last(), entry, at, c);
    }
}

/// The text of an entry tells name and value apart where the name holds
/// no `=`.
proof fn lemma_pair_text_injective(a: Entry, b: Entry)
    requires
        is_plain(a.0),
        is_plain(b.0),
        pair_text(a) == pair_text(b),
    ensures
        a == b,
{
    let ta = pair_text(a);
    let tb = pair_text(b);
    let n = a.0.len() as int;
    let m = b.0.len() as int;
    if n < m {
        assert(ta[n] == '=');
        assert(tb[n] == b.0[n]);
    } else if m < n {
        assert(tb[m] == '=');
        assert(ta[m] == a.0[m]);
    } else {
        assert(a.0 =~= ta.subrange(0, n));
        assert(b.0 =~= tb.subrange(0, n));
        assert(a.1 =~= ta.subrange(n + 1, ta.len() as int));
        assert(b.1 =~= tb.subrange(n + 1, tb.len() as int));
    }
}

/// The text of an entry without `&` in name and value holds no `&`.
proof fn lemma_pair_text_plain(e: Entry)
    requires
        is_plain(e.0),
        is_plain(e.1),
    ensures
        pair_text(e).len() > 0,
        forall|i: int| 0 <= i < pair_text(e).len() ==> #[trigger] pair_text(e)[i] != '&',
{
    let t = pair_text(e);
    assert forall|i: int| 0 <= i < t.len() implies #[trigger] t[i] != '&' by {
        if i < e.0.len() {
            assert(t[i] == e.0[i]);
        } else if i == e.0.len() {
            assert(t[i] == '=');
        } else {
            assert(t[i] == e.1[i - e.0.len() - 1]);
        }
    }
}

/// The text of entries without `&` and `=` in names and values tells the
/// entries apart: different sequences have different texts.
pub proof fn lemma_joined_injective(s: Seq<Entry>, t: Seq<Entry>)
    requires
        all_plain(s),
        all_plain(t),
        joined(s) == joined(t),
    ensures
        s == t,
    decreases s.len() + t.len(),
{
    if s.len() == 0 || t.len() == 0 {
        if s.len() > 0 {
            lemma_joined_ends(s);
            lemma_pair_text_plain(s[0]);
        }
        if t.len() > 0 {
            lemma_joined_ends(t);
            lemma_pair_text_plain(t[0]);
        }
        assert(s =~= t);
    } else {
        let text = joined(s);
        let ps = pair_text(s.last());
        let pt = pair_text(t.last());
        lemma_pair_text_plain(s.last());
        lemma_pair_text_plain(t.last());
        lemma_joined_ends(s);
        lemma_joined_ends(t);
        let len = text.len() as int;
        assert(text.subrange(len - ps.len(), len) == ps);
        assert(text.subrange(len - pt.len(), len) == pt);
        if ps.len() < pt.len() {
            // the `&` in front of the last entry of `s` would lie inside the last entry of `t`
            assert(s.len() > 1);
            let q = len - ps.len() - 1;
            assert(text[q] == '&');
            assert(text[q] == text.subrange(len - pt.len(), len)[q - (len - pt.len())]);
            assert(false);
        }
        if pt.len() < ps.len() {
            assert(t.len() > 1);
            let q = len - pt.len() - 1;
            assert(text[q] == '&');
            assert(text[q] == text.subrange(len - ps.len(), len)[q - (len - ps.len())]);
            assert(false);
        }
        assert(ps == pt);
        lemma_pair_text_injective(s.last(), t.last());
        let hs = s.drop_last();
        let ht = t.drop_last();
        assert(joined(hs) == joined(ht)) by {
            if s.len() == 1 {
                assert(joined(hs).len() == 0);
                if t.len() > 1 {
                    assert(joined(t).len() == joined(ht).len() + 1 + pt.len());
                }
                assert(joined(hs) =~= joined(ht));
            } else if t.len() == 1 {
                assert(joined(s).len() == joined(hs).len() + 1 + ps.len());
                assert(false);
            } else {
                assert(joined(hs) =~= text.subrange(0, len - ps.len() - 1));
                assert(joined(ht) =~= text.subrange(0, len - pt.len() - 1));
            }
        }
        lemma_joined_injective(hs, ht);
        assert(s =~= hs.push(s.last()));
        assert(t =~= ht.push(t.last()));
    }
}

/// The canonical query tells parameter sets apart: two sets without `&`
/// and `=` in names and values that differ in a name or a value have
/// different queries.
pub proof fn lemma_query_binds_parameters(a: Seq<Entry>, b: Seq<Entry>)
    requires
        keys_distinct(a),
        keys_distinct(b),
        all_plain(a),
        all_plain(b),
        entries_map(a) != entries_map(b),
    ensures
        canonical_query(entries_map(a)) != canonical_query(entries_map(b)),
{
    broadcast use vstd::seq_lib::group_to_multiset_ensures;

    lemma_canonical_order_exists(a);
    lemma_canonical_order_exists(b);
    lemma_arranged(a);
    lemma_arranged(b);
    let ca = arranged(a);
    let cb = arranged(b);
    assert(all_plain(ca)) by {
        assert forall|i: int| 0 <= i < ca.len() implies is_plain((#[trigger] ca[i]).0)
            && is_plain(ca[i].1) by {
            assert(ca.contains(ca[i]));
            assert(a.to_multiset().count(ca[i]) > 0);
            assert(a.contains(ca[i]));
            let j = choose|j: int| 0 <= j < a.len() && a[j] == ca[i];
            assert(is_plain(a[j].0));
        }
    }
    assert(all_plain(cb)) by {
        assert forall|i: int| 0 <= i < cb.len() implies is_plain((#[trigger] cb[i]).0)
            && is_plain(cb[i].1) by {
            assert(cb.contains(cb[i]));
            assert(b.to_multiset().count(cb[i]) > 0);
            assert(b.contains(cb[i]));
            let j = choose|j: int| 0 <= j < b.len() && b[j] == cb[i];
            assert(is_plain(b[j].0));
        }
    }
    if joined(ca) == joined(cb) {
        lemma_joined_injective(ca, cb);
    }
}

} // verus!
