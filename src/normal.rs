//! Normalization: sorting the entries of every map so that maps built in
//! different orders compare equal.
use vstd::prelude::*;

use core::cmp::Ordering;

use crate::float::FloatPolicy;
use crate::key::{
    entry_view, entry_views, key_view, key_views, lemma_entry_views, lemma_entry_views_ext,
    lemma_key_views, lemma_key_views_ext, Key, KeyView,
};
use crate::order::{key_cmp, lemma_key_antisym, lemma_key_refl, lemma_key_trans};

verus! {

broadcast use vstd::seq_lib::group_to_multiset_ensures;

/// An entry of a map.
pub type Entry<F> = (KeyView<F>, KeyView<F>);

/// The entries are in order of their keys.
pub open spec fn entries_sorted<F: FloatPolicy>(s: Seq<Entry<F>>) -> bool {
    forall|i: int, j: int|
        0 <= i < j < s.len() ==> key_cmp(#[trigger] s[i].0, #[trigger] s[j].0) != Ordering::Greater
}

/// The entries are in strictly increasing order of their keys.
pub open spec fn entries_strictly_sorted<F: FloatPolicy>(s: Seq<Entry<F>>) -> bool {
    forall|i: int, j: int|
        0 <= i < j < s.len() ==> key_cmp(#[trigger] s[i].0, #[trigger] s[j].0) == Ordering::Less
}

/// No two entries have keys that compare equal.
pub open spec fn keys_distinct<F: FloatPolicy>(s: Seq<Entry<F>>) -> bool {
    forall|i: int, j: int|
        0 <= i < s.len() && 0 <= j < s.len() && i != j ==> key_cmp(#[trigger] s[i].0, #[trigger] s[j].0)
            != Ordering::Equal
}

/// `e` placed into `t` after the last entry whose key is not greater than its
/// own.
pub open spec fn insert_entry<F: FloatPolicy>(t: Seq<Entry<F>>, e: Entry<F>) -> Seq<Entry<F>>
    decreases t.len(),
{
    if t.len() == 0 {
        seq![e]
    } else if key_cmp(t.last().0, e.0) == Ordering::Greater {
        insert_entry(t.drop_last(), e).push(t.last())
    } else {
        t.push(e)
    }
}

/// The entries sorted by key; entries with equal keys keep their order.
pub open spec fn sort_entries<F: FloatPolicy>(s: Seq<Entry<F>>) -> Seq<Entry<F>>
    decreases s.len(),
{
    if s.len() == 0 {
        s
    } else {
        insert_entry(sort_entries(s.drop_last()), s.last())
    }
}

/// The normal form of a key: the same key with every map, at any depth, sorted
/// by key.
pub open spec fn normalized<F: FloatPolicy>(k: KeyView<F>) -> KeyView<F>
    decreases k, 0nat,
{
    match k {
        KeyView::Sequence(x) => KeyView::Sequence(normalized_keys(x, x.len())),
        KeyView::Mapping(x) => KeyView::Mapping(sort_entries(normalized_entries(x, x.len()))),
        _ => k,
    }
}

/// The normal forms of the first `n` keys of `x`.
pub open spec fn normalized_keys<F: FloatPolicy>(x: Seq<KeyView<F>>, n: nat) -> Seq<KeyView<F>>
    decreases x, n,
{
    if n == 0 || n > x.len() {
        Seq::empty()
    } else {
        normalized_keys(x, (n - 1) as nat).push(normalized(x[n - 1]))
    }
}

/// The first `n` entries of `x` with key and value in normal form.
pub open spec fn normalized_entries<F: FloatPolicy>(x: Seq<Entry<F>>, n: nat) -> Seq<Entry<F>>
    decreases x, n,
{
    if n == 0 || n > x.len() {
        Seq::empty()
    } else {
        normalized_entries(x, (n - 1) as nat).push((normalized(x[n - 1].0), normalized(x[n - 1].1)))
    }
}

/// An entry with key and value in normal form.
pub open spec fn normalized_entry<F: FloatPolicy>(e: Entry<F>) -> Entry<F> {
    (normalized(e.0), normalized(e.1))
}

/// The key is in normal form: every map in it is sorted by key.
pub open spec fn is_normal<F: FloatPolicy>(k: KeyView<F>) -> bool
    decreases k, 0nat,
{
    match k {
        KeyView::Sequence(x) => keys_normal(x, x.len()),
        KeyView::Mapping(x) => entries_normal(x, x.len()) && entries_sorted(x),
        _ => true,
    }
}

/// The first `n` keys of `x` are in normal form.
pub open spec fn keys_normal<F: FloatPolicy>(x: Seq<KeyView<F>>, n: nat) -> bool
    decreases x, n,
{
    if n == 0 || n > x.len() {
        true
    } else {
        keys_normal(x, (n - 1) as nat) && is_normal(x[n - 1])
    }
}

/// Keys and values of the first `n` entries of `x` are in normal form.
pub open spec fn entries_normal<F: FloatPolicy>(x: Seq<Entry<F>>, n: nat) -> bool
    decreases x, n,
{
    if n == 0 || n > x.len() {
        true
    } else {
        entries_normal(x, (n - 1) as nat) && is_normal(x[n - 1].0) && is_normal(x[n - 1].1)
    }
}

pub proof fn lemma_normalized_keys<F: FloatPolicy>(x: Seq<KeyView<F>>, n: nat)
    requires
        n <= x.len(),
    ensures
        normalized_keys(x, n).len() == n,
        forall|i: int| 0 <= i < n ==> #[trigger] normalized_keys(x, n)[i] == normalized(x[i]),
    decreases n,
{
    if n > 0 {
        lemma_normalized_keys(x, (n - 1) as nat);
    }
}

pub proof fn lemma_normalized_entries<F: FloatPolicy>(x: Seq<Entry<F>>, n: nat)
    requires
        n <= x.len(),
    ensures
        normalized_entries(x, n).len() == n,
        forall|i: int| 0 <= i < n ==> #[trigger] normalized_entries(x, n)[i] == normalized_entry(x[i]),
    decreases n,
{
    if n > 0 {
        lemma_normalized_entries(x, (n - 1) as nat);
    }
}

proof fn lemma_keys_normal<F: FloatPolicy>(x: Seq<KeyView<F>>, n: nat)
    requires
        n <= x.len(),
    ensures
        keys_normal(x, n) <==> forall|i: int| 0 <= i < n ==> #[trigger] is_normal(x[i]),
    decreases n,
{
    if n > 0 {
        lemma_keys_normal(x, (n - 1) as nat);
        let p = (n - 1) as int;
        assert(keys_normal(x, n) == (keys_normal(x, (n - 1) as nat) && is_normal(x[p])));
        if forall|i: int| 0 <= i < n ==> #[trigger] is_normal(x[i]) {
            assert(is_normal(x[p]));
        }
    }
}

proof fn lemma_entries_normal<F: FloatPolicy>(x: Seq<Entry<F>>, n: nat)
    requires
        n <= x.len(),
    ensures
        entries_normal(x, n) <==> forall|i: int|
            0 <= i < n ==> is_normal(#[trigger] x[i].0) && is_normal(x[i].1),
    decreases n,
{
    if n > 0 {
        lemma_entries_normal(x, (n - 1) as nat);
    }
}

/// Inserting into sorted entries keeps them sorted and adds exactly `e`.
proof fn lemma_insert_entry<F: FloatPolicy>(t: Seq<Entry<F>>, e: Entry<F>)
    requires
        entries_sorted(t),
    ensures
        entries_sorted(insert_entry(t, e)),
        insert_entry(t, e).to_multiset() == t.to_multiset().insert(e),
    decreases t.len(),
{
    if t.len() == 0 {
        assert(seq![e] =~= Seq::<Entry<F>>::empty().push(e));
    } else {
        let l = t.last();
        let u = t.drop_last();
        assert(t =~= u.push(l));
        if key_cmp(l.0, e.0) == Ordering::Greater {
            lemma_insert_entry(u, e);
            let r = insert_entry(u, e);
            lemma_key_antisym(l.0, e.0);
            assert forall|k: int| 0 <= k < r.len() implies key_cmp(r[k].0, l.0) != Ordering::Greater by {
                assert(r.to_multiset().count(r[k]) > 0);
                if r[k] != e {
                    assert(u.to_multiset().count(r[k]) > 0);
                    let p = choose|p: int| 0 <= p < u.len() && u[p] == r[k];
                    assert(t[p] == u[p]);
                }
            }
            assert forall|i: int, j: int| 0 <= i < j < r.push(l).len() implies key_cmp(
                #[trigger] r.push(l)[i].0,
                #[trigger] r.push(l)[j].0,
            ) != Ordering::Greater by {
                if j == r.len() {
                    assert(r.push(l)[i] == r[i]);
                } else {
                    assert(r.push(l)[i] == r[i] && r.push(l)[j] == r[j]);
                }
            }
        } else {
            assert forall|i: int, j: int| 0 <= i < j < t.push(e).len() implies key_cmp(
                #[trigger] t.push(e)[i].0,
                #[trigger] t.push(e)[j].0,
            ) != Ordering::Greater by {
                if j == t.len() {
                    if i < t.len() - 1 {
                        lemma_key_trans(t[i].0, l.0, e.0);
                    }
                } else {
                    assert(t.push(e)[i] == t[i] && t.push(e)[j] == t[j]);
                }
            }
        }
    }
}

/// Sorting gives sorted entries, the same entries as before.
pub proof fn lemma_sort_entries<F: FloatPolicy>(s: Seq<Entry<F>>)
    ensures
        entries_sorted(sort_entries(s)),
        sort_entries(s).to_multiset() == s.to_multiset(),
    decreases s.len(),
{
    if s.len() > 0 {
        lemma_sort_entries(s.drop_last());
        lemma_insert_entry(sort_entries(s.drop_last()), s.last());
        assert(s =~= s.drop_last().push(s.last()));
    }
}

/// Sorting entries that are already sorted leaves them as they are.
pub proof fn lemma_sort_sorted<F: FloatPolicy>(s: Seq<Entry<F>>)
    requires
        entries_sorted(s),
    ensures
        sort_entries(s) == s,
    decreases s.len(),
{
    if s.len() > 0 {
        let u = s.drop_last();
        assert(entries_sorted(u)) by {
            assert forall|i: int, j: int| 0 <= i < j < u.len() implies key_cmp(
                #[trigger] u[i].0,
                #[trigger] u[j].0,
            ) != Ordering::Greater by {
                assert(u[i] == s[i] && u[j] == s[j]);
            }
        }
        lemma_sort_sorted(u);
        if u.len() > 0 {
            assert(u.last() == s[s.len() - 2]);
        }
        assert(s =~= u.push(s.last()));
    }
}

/// Normalizing gives a key in normal form.
pub proof fn lemma_normalized_is_normal<F: FloatPolicy>(k: KeyView<F>)
    ensures
        is_normal(normalized(k)),
    decreases k, 0nat,
{
    match k {
        KeyView::Sequence(x) => {
            let nk = normalized_keys(x, x.len());
            lemma_normalized_keys(x, x.len());
            assert forall|i: int| 0 <= i < nk.len() implies #[trigger] is_normal(nk[i]) by {
                lemma_normalized_is_normal(x[i]);
            }
            lemma_keys_normal(nk, nk.len());
        },
        KeyView::Mapping(x) => {
            let ne = normalized_entries(x, x.len());
            let s = sort_entries(ne);
            lemma_normalized_entries(x, x.len());
            lemma_sort_entries(ne);
            assert forall|i: int| 0 <= i < s.len() implies is_normal(#[trigger] s[i].0) && is_normal(
                s[i].1,
            ) by {
                assert(s.to_multiset().count(s[i]) > 0);
                assert(ne.to_multiset().count(s[i]) > 0);
                let p = choose|p: int| 0 <= p < ne.len() && ne[p] == s[i];
                lemma_normalized_is_normal(x[p].0);
                lemma_normalized_is_normal(x[p].1);
            }
            lemma_entries_normal(s, s.len());
        },
        _ => {},
    }
}

/// A key in normal form is its own normal form.
pub proof fn lemma_normal_is_fixed<F: FloatPolicy>(k: KeyView<F>)
    requires
        is_normal(k),
    ensures
        normalized(k) == k,
    decreases k, 0nat,
{
    match k {
        KeyView::Sequence(x) => {
            lemma_normalized_keys(x, x.len());
            lemma_keys_normal(x, x.len());
            assert forall|i: int| 0 <= i < x.len() implies #[trigger] normalized_keys(x, x.len())[i]
                == x[i] by {
                lemma_normal_is_fixed(x[i]);
            }
            assert(normalized_keys(x, x.len()) =~= x);
        },
        KeyView::Mapping(x) => {
            lemma_normalized_entries(x, x.len());
            lemma_entries_normal(x, x.len());
            assert forall|i: int| 0 <= i < x.len() implies #[trigger] normalized_entries(
                x,
                x.len(),
            )[i] == x[i] by {
                lemma_normal_is_fixed(x[i].0);
                lemma_normal_is_fixed(x[i].1);
            }
            assert(normalized_entries(x, x.len()) =~= x);
            lemma_sort_sorted(x);
        },
        _ => {},
    }
}

/// Normalizing twice gives the same key as normalizing once.
pub proof fn lemma_normalize_idempotent<F: FloatPolicy>(k: KeyView<F>)
    ensures
        normalized(normalized(k)) == normalized(k),
{
    lemma_normalized_is_normal(k);
    lemma_normal_is_fixed(normalized(k));
}

/// Mapping the same function over two orderings of the same elements gives two
/// orderings of the same results.
proof fn lemma_map_values_multiset<A, B>(s1: Seq<A>, s2: Seq<A>, f: spec_fn(A) -> B)
    requires
        s1.to_multiset() == s2.to_multiset(),
    ensures
        s1.map_values(f).to_multiset() == s2.map_values(f).to_multiset(),
    decreases s1.len(),
{
    assert(s1.len() == s1.to_multiset().len() && s2.len() == s2.to_multiset().len());
    if s1.len() == 0 {
        assert(s1.map_values(f) =~= Seq::<B>::empty());
        assert(s2.map_values(f) =~= Seq::<B>::empty());
    } else {
        let a = s1.last();
        let t1 = s1.drop_last();
        assert(s1.remove(s1.len() - 1) =~= t1);
        assert(s1.contains(a));
        assert(s2.to_multiset().count(a) > 0);
        assert(s2.contains(a));
        let j = choose|j: int| 0 <= j < s2.len() && s2[j] == a;
        let t2 = s2.remove(j);
        lemma_map_values_multiset(t1, t2, f);
        assert(s1.map_values(f) =~= t1.map_values(f).push(f(a)));
        assert(s2.map_values(f) =~= t2.map_values(f).insert(j, f(a)));
        vstd::seq_lib::to_multiset_insert(t2.map_values(f), j, f(a));
    }
}

/// Normalizing the entries one by one is mapping `normalized_entry` over them.
proof fn lemma_normalized_entries_map<F: FloatPolicy>(x: Seq<Entry<F>>)
    ensures
        normalized_entries(x, x.len()) == x.map_values(|e: Entry<F>| normalized_entry(e)),
{
    lemma_normalized_entries(x, x.len());
    assert(normalized_entries(x, x.len()) =~= x.map_values(|e: Entry<F>| normalized_entry(e)));
}

/// Inserting an entry whose key differs from all others into strictly sorted
/// entries keeps them strictly sorted.
proof fn lemma_insert_entry_strict<F: FloatPolicy>(t: Seq<Entry<F>>, e: Entry<F>)
    requires
        entries_strictly_sorted(t),
        forall|k: int| 0 <= k < t.len() ==> key_cmp(#[trigger] t[k].0, e.0) != Ordering::Equal,
    ensures
        entries_strictly_sorted(insert_entry(t, e)),
    decreases t.len(),
{
    if t.len() > 0 {
        let l = t.last();
        let u = t.drop_last();
        assert(t =~= u.push(l));
        assert(entries_sorted(u));
        lemma_insert_entry(u, e);
        if key_cmp(l.0, e.0) == Ordering::Greater {
            assert forall|k: int| 0 <= k < u.len() implies key_cmp(#[trigger] u[k].0, e.0)
                != Ordering::Equal by {
                assert(u[k] == t[k]);
            }
            lemma_insert_entry_strict(u, e);
            let r = insert_entry(u, e);
            lemma_key_antisym(l.0, e.0);
            assert forall|k: int| 0 <= k < r.len() implies key_cmp(r[k].0, l.0) == Ordering::Less by {
                assert(r.to_multiset().count(r[k]) > 0);
                if r[k] != e {
                    assert(u.to_multiset().count(r[k]) > 0);
                    let p = choose|p: int| 0 <= p < u.len() && u[p] == r[k];
                    assert(t[p] == u[p]);
                }
            }
            assert forall|i: int, j: int| 0 <= i < j < r.push(l).len() implies key_cmp(
                #[trigger] r.push(l)[i].0,
                #[trigger] r.push(l)[j].0,
            ) == Ordering::Less by {
                if j == r.len() {
                    assert(r.push(l)[i] == r[i]);
                } else {
                    assert(r.push(l)[i] == r[i] && r.push(l)[j] == r[j]);
                }
            }
        } else {
            assert(key_cmp(l.0, e.0) == Ordering::Less);
            assert forall|i: int, j: int| 0 <= i < j < t.push(e).len() implies key_cmp(
                #[trigger] t.push(e)[i].0,
                #[trigger] t.push(e)[j].0,
            ) == Ordering::Less by {
                if j == t.len() {
                    if i < t.len() - 1 {
                        lemma_key_trans(t[i].0, l.0, e.0);
                    }
                } else {
                    assert(t.push(e)[i] == t[i] && t.push(e)[j] == t[j]);
                }
            }
        }
    }
}

/// Sorting entries whose keys are all distinct gives strictly sorted entries.
proof fn lemma_sort_entries_strict<F: FloatPolicy>(s: Seq<Entry<F>>)
    requires
        keys_distinct(s),
    ensures
        entries_strictly_sorted(sort_entries(s)),
    decreases s.len(),
{
    if s.len() > 0 {
        let u = s.drop_last();
        let e = s.last();
        assert(keys_distinct(u)) by {
            assert forall|i: int, j: int|
                0 <= i < u.len() && 0 <= j < u.len() && i != j implies key_cmp(
                #[trigger] u[i].0,
                #[trigger] u[j].0,
            ) != Ordering::Equal by {
                assert(u[i] == s[i] && u[j] == s[j]);
            }
        }
        lemma_sort_entries_strict(u);
        lemma_sort_entries(u);
        let t = sort_entries(u);
        assert forall|k: int| 0 <= k < t.len() implies key_cmp(#[trigger] t[k].0, e.0)
            != Ordering::Equal by {
            assert(t.to_multiset().count(t[k]) > 0);
            assert(u.to_multiset().count(t[k]) > 0);
            let p = choose|p: int| 0 <= p < u.len() && u[p] == t[k];
            assert(s[p] == u[p]);
            assert(s[s.len() - 1] == e);
        }
        lemma_insert_entry_strict(t, e);
    }
}

/// Strictly sorted entries are the only sorted arrangement of their entries.
#[verifier::rlimit(40)]
proof fn lemma_sorted_unique<F: FloatPolicy>(s: Seq<Entry<F>>, t: Seq<Entry<F>>)
    requires
        entries_strictly_sorted(s),
        entries_sorted(t),
        s.to_multiset() == t.to_multiset(),
    ensures
        s == t,
    decreases s.len(),
{
    assert(s.len() == s.to_multiset().len() && t.len() == t.to_multiset().len());
    if s.len() == 0 {
        assert(s =~= t);
    } else {
        let x = s[0];
        let y = t[0];
        assert(s.contains(x)) by {
            assert(s[0] == x);
        }
        assert(t.contains(y)) by {
            assert(t[0] == y);
        }
        assert(s.to_multiset().count(x) > 0 && t.to_multiset().count(y) > 0);
        assert(s.contains(y) && t.contains(x));
        let i = choose|i: int| 0 <= i < s.len() && s[i] == y;
        let j = choose|j: int| 0 <= j < t.len() && t[j] == x;
        if i > 0 {
            assert(key_cmp(x.0, y.0) == Ordering::Less);
            lemma_key_antisym(x.0, y.0);
            if j == 0 {
                lemma_key_refl(x.0);
            } else {
                assert(key_cmp(t[0].0, t[j].0) != Ordering::Greater);
            }
        }
        assert(x == y);
        let s1 = s.drop_first();
        let t1 = t.drop_first();
        assert(s.remove(0) =~= s1);
        assert(t.remove(0) =~= t1);
        assert(entries_strictly_sorted(s1)) by {
            assert forall|a: int, b: int| 0 <= a < b < s1.len() implies key_cmp(
                #[trigger] s1[a].0,
                #[trigger] s1[b].0,
            ) == Ordering::Less by {
                assert(s1[a] == s[a + 1] && s1[b] == s[b + 1]);
            }
        }
        assert(entries_sorted(t1)) by {
            assert forall|a: int, b: int| 0 <= a < b < t1.len() implies key_cmp(
                #[trigger] t1[a].0,
                #[trigger] t1[b].0,
            ) != Ordering::Greater by {
                assert(t1[a] == t[a + 1] && t1[b] == t[b + 1]);
            }
        }
        lemma_sorted_unique(s1, t1);
        assert(s =~= t) by {
            assert forall|a: int| 0 <= a < s.len() implies s[a] == t[a] by {
                if a > 0 {
                    assert(s[a] == s1[a - 1] && t[a] == t1[a - 1]);
                }
            }
        }
    }
}

/// Two maps with the same entries, given in different orders, have the same
/// normal form, as long as no two of their keys become equal when normalized.
pub proof fn lemma_map_order_independent<F: FloatPolicy>(m1: Seq<Entry<F>>, m2: Seq<Entry<F>>)
    requires
        m1.to_multiset() == m2.to_multiset(),
        forall|i: int, j: int|
            0 <= i < m1.len() && 0 <= j < m1.len() && i != j ==> key_cmp(
                normalized(#[trigger] m1[i].0),
                normalized(#[trigger] m1[j].0),
            ) != Ordering::Equal,
    ensures
        normalized(KeyView::Mapping(m1)) == normalized(KeyView::Mapping(m2)),
{
    let f = |e: Entry<F>| normalized_entry(e);
    let n1 = normalized_entries(m1, m1.len());
    let n2 = normalized_entries(m2, m2.len());
    lemma_normalized_entries_map(m1);
    lemma_normalized_entries_map(m2);
    lemma_map_values_multiset(m1, m2, f);
    lemma_normalized_entries(m1, m1.len());
    assert(keys_distinct(n1)) by {
        assert forall|i: int, j: int|
            0 <= i < n1.len() && 0 <= j < n1.len() && i != j implies key_cmp(
            #[trigger] n1[i].0,
            #[trigger] n1[j].0,
        ) != Ordering::Equal by {
            assert(n1[i].0 == normalized(m1[i].0) && n1[j].0 == normalized(m1[j].0));
        }
    }
    lemma_sort_entries_strict(n1);
    lemma_sort_entries(n1);
    lemma_sort_entries(n2);
    lemma_sorted_unique(sort_entries(n1), sort_entries(n2));
}

/// Inserting `e` at a position after every key not greater than its own and
/// before the greater ones is `insert_entry`.
proof fn lemma_insert_at<F: FloatPolicy>(t: Seq<Entry<F>>, e: Entry<F>, p: int)
    requires
        0 <= p <= t.len(),
        forall|k: int| p <= k < t.len() ==> key_cmp(#[trigger] t[k].0, e.0) == Ordering::Greater,
        p == 0 || key_cmp(t[p - 1].0, e.0) != Ordering::Greater,
    ensures
        insert_entry(t, e) == t.insert(p, e),
    decreases t.len(),
{
    if t.len() == 0 {
        assert(seq![e] =~= t.insert(p, e));
    } else if p == t.len() {
        assert(t.push(e) =~= t.insert(p, e));
    } else {
        let u = t.drop_last();
        assert forall|k: int| p <= k < u.len() implies key_cmp(#[trigger] u[k].0, e.0)
            == Ordering::Greater by {
            assert(u[k] == t[k]);
        }
        if p > 0 {
            assert(u[p - 1] == t[p - 1]);
        }
        lemma_insert_at(u, e, p);
        assert(u.insert(p, e).push(t.last()) =~= t.insert(p, e));
    }
}

/// Whether an ordering says "greater".
fn is_greater(o: Ordering) -> (r: bool)
    ensures
        r == (o == Ordering::Greater),
{
    match o {
        Ordering::Greater => true,
        _ => false,
    }
}

/// The keys of `v`, each normalized, in order.
#[verifier::loop_isolation(false)]
fn normalize_keys<F: FloatPolicy>(v: Vec<Key<F>>) -> (r: Vec<Key<F>>)
    ensures
        r@.len() == v@.len(),
        forall|j: int| 0 <= j < v@.len() ==> #[trigger] key_view(r@[j]) == normalized(key_view(v@[j])),
    decreases v,
{
    let ghost vv = v@;
    let ghost whole = v;
    let mut rest = v;
    let mut rev: Vec<Key<F>> = Vec::new();
    while rest.len() > 0
        invariant
            rest@ == vv.subrange(0, rest@.len() as int),
            rev@.len() + rest@.len() == vv.len(),
            forall|j: int|
                0 <= j < rev@.len() ==> #[trigger] key_view(rev@[j]) == normalized(
                    key_view(vv[vv.len() - 1 - j]),
                ),
        decreases rest@.len(),
    {
        let x = rest.pop().unwrap();
        proof {
            assert(x == vv[rest@.len() as int]);
            assert(decreases_to!(whole => x));
        }
        rev.push(x.normalize());
    }
    let mut out: Vec<Key<F>> = Vec::new();
    while rev.len() > 0
        invariant
            rev@.len() + out@.len() == vv.len(),
            forall|j: int|
                0 <= j < rev@.len() ==> #[trigger] key_view(rev@[j]) == normalized(
                    key_view(vv[vv.len() - 1 - j]),
                ),
            forall|j: int|
                0 <= j < out@.len() ==> #[trigger] key_view(out@[j]) == normalized(key_view(vv[j])),
        decreases rev@.len(),
    {
        let x = rev.pop().unwrap();
        out.push(x);
    }
    out
}

/// The entries of `m`, with key and value normalized, in order.
#[verifier::loop_isolation(false)]
fn normalize_entries<F: FloatPolicy>(m: Vec<(Key<F>, Key<F>)>) -> (r: Vec<(Key<F>, Key<F>)>)
    ensures
        r@.len() == m@.len(),
        forall|j: int|
            0 <= j < m@.len() ==> #[trigger] entry_view(r@[j]) == normalized_entry(entry_view(m@[j])),
    decreases m,
{
    let ghost mm = m@;
    let ghost whole = m;
    let mut rest = m;
    let mut rev: Vec<(Key<F>, Key<F>)> = Vec::new();
    while rest.len() > 0
        invariant
            rest@ == mm.subrange(0, rest@.len() as int),
            rev@.len() + rest@.len() == mm.len(),
            forall|j: int|
                0 <= j < rev@.len() ==> #[trigger] entry_view(rev@[j]) == normalized_entry(
                    entry_view(mm[mm.len() - 1 - j]),
                ),
        decreases rest@.len(),
    {
        let e = rest.pop().unwrap();
        proof {
            assert(e == mm[rest@.len() as int]);
            assert(decreases_to!(whole => e.0));
            assert(decreases_to!(whole => e.1));
        }
        let k = e.0.normalize();
        let v = e.1.normalize();
        rev.push((k, v));
    }
    let mut out: Vec<(Key<F>, Key<F>)> = Vec::new();
    while rev.len() > 0
        invariant
            rev@.len() + out@.len() == mm.len(),
            forall|j: int|
                0 <= j < rev@.len() ==> #[trigger] entry_view(rev@[j]) == normalized_entry(
                    entry_view(mm[mm.len() - 1 - j]),
                ),
            forall|j: int|
                0 <= j < out@.len() ==> #[trigger] entry_view(out@[j]) == normalized_entry(
                    entry_view(mm[j]),
                ),
        decreases rev@.len(),
    {
        let e = rev.pop().unwrap();
        out.push(e);
    }
    out
}

/// The entries sorted by key, entries with equal keys keeping their order.
fn sort_by_key<F: FloatPolicy>(m: Vec<(Key<F>, Key<F>)>) -> (r: Vec<(Key<F>, Key<F>)>)
    ensures
        entry_views(r@, r@.len()) == sort_entries(entry_views(m@, m@.len())),
{
    let ghost mv = entry_views(m@, m@.len());
    proof {
        lemma_entry_views(m@, m@.len());
    }
    let mut rev: Vec<(Key<F>, Key<F>)> = Vec::new();
    let mut rest = m;
    while rest.len() > 0
        invariant
            mv.len() == rest@.len() + rev@.len(),
            forall|j: int| 0 <= j < rest@.len() ==> #[trigger] entry_view(rest@[j]) == mv[j],
            forall|j: int|
                0 <= j < rev@.len() ==> #[trigger] entry_view(rev@[j]) == mv[mv.len() - 1 - j],
        decreases rest@.len(),
    {
        let e = rest.pop().unwrap();
        rev.push(e);
    }
    let mut out: Vec<(Key<F>, Key<F>)> = Vec::new();
    while rev.len() > 0
        invariant
            rev@.len() + out@.len() == mv.len(),
            forall|j: int|
                0 <= j < rev@.len() ==> #[trigger] entry_view(rev@[j]) == mv[mv.len() - 1 - j],
            entry_views(out@, out@.len()) == sort_entries(mv.subrange(0, out@.len() as int)),
        decreases rev@.len(),
    {
        let e = rev.pop().unwrap();
        let ghost done = out@.len() as int;
        let ghost sv = entry_views(out@, out@.len());
        proof {
            lemma_entry_views(out@, out@.len());
            lemma_sort_entries(mv.subrange(0, done));
            assert(entry_view(e) == mv[done]);
        }
        let mut p: usize = out.len();
        while p > 0 && is_greater(out[p - 1].0.compare(&e.0))
            invariant
                p <= out@.len(),
                sv == entry_views(out@, out@.len()),
                sv.len() == out@.len(),
                forall|j: int| 0 <= j < out@.len() ==> #[trigger] sv[j] == entry_view(out@[j]),
                forall|k: int|
                    p <= k < sv.len() ==> key_cmp(#[trigger] sv[k].0, key_view(e.0))
                        == Ordering::Greater,
            decreases p,
        {
            p = p - 1;
        }
        proof {
            lemma_insert_at(sv, entry_view(e), p as int);
            assert(mv.subrange(0, done + 1).drop_last() =~= mv.subrange(0, done));
        }
        out.insert(p, e);
        proof {
            lemma_entry_views_ext(out@, sv.insert(p as int, entry_view(e)));
        }
    }
    proof {
        assert(mv.subrange(0, mv.len() as int) =~= mv);
    }
    out
}

impl<F: FloatPolicy> Key<F> {
    /// Normalizes the key: sorts the entries of every map in it, at any depth,
    /// by key, keeping entries with equal keys in their order.
    pub fn normalize(self) -> (r: Key<F>)
        ensures
            r@ == normalized(self@),
        decreases self,
    {
        match self {
            Key::Sequence(v) => {
                let ghost vv = v@;
                let out = normalize_keys(v);
                proof {
                    lemma_key_views(vv, vv.len());
                    lemma_normalized_keys(key_views(vv, vv.len()), vv.len());
                    lemma_key_views_ext(out@, normalized_keys(key_views(vv, vv.len()), vv.len()));
                }
                Key::Sequence(out)
            },
            Key::Mapping(m) => {
                let ghost mm = m@;
                let entries = normalize_entries(m);
                proof {
                    lemma_entry_views(mm, mm.len());
                    lemma_normalized_entries(entry_views(mm, mm.len()), mm.len());
                    lemma_entry_views_ext(
                        entries@,
                        normalized_entries(entry_views(mm, mm.len()), mm.len()),
                    );
                }
                Key::Mapping(sort_by_key(entries))
            },
            other => other,
        }
    }
}

} // verus!
