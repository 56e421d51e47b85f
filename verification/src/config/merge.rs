//! Merging definitions over base definitions: the base is ordered by name, then each
//! definition replaces the base's definition of its name or is inserted in order.
use vstd::prelude::*;
use crate::config::keys::{key_lt, lemma_key_lt_irreflexive, lemma_key_lt_total, lemma_key_lt_transitive, compare_keys, KeyOrder};

verus! {

/// A definition that has a name.
pub trait Keyed {
    spec fn key_view(&self) -> Seq<char>;

    fn key(&self) -> (k: &str)
        ensures
            k@ == self.key_view(),
    ;
}

/// The names in `s` never go down.
pub open spec fn keys_sorted<T: Keyed>(s: Seq<T>) -> bool {
    forall|i: int, j: int| 0 <= i < j < s.len() ==> !key_lt(#[trigger] s[j].key_view(), #[trigger] s[i].key_view())
}

/// Some element of `s` has the name `k`.
pub open spec fn has_key<T: Keyed>(s: Seq<T>, k: Seq<char>) -> bool {
    exists|i: int| 0 <= i < s.len() && #[trigger] s[i].key_view() == k
}

/// The first position in `s` whose name does not come before `k`.
pub open spec fn lower_bound<T: Keyed>(s: Seq<T>, k: Seq<char>) -> int
    decreases s.len(),
{
    if s.len() == 0 {
        0
    } else if !key_lt(s[0].key_view(), k) {
        0
    } else {
        1 + lower_bound(s.drop_first(), k)
    }
}

/// The first position in `s` whose name comes after `k`.
pub open spec fn upper_bound<T: Keyed>(s: Seq<T>, k: Seq<char>) -> int
    decreases s.len(),
{
    if s.len() == 0 {
        0
    } else if key_lt(k, s[0].key_view()) {
        0
    } else {
        1 + upper_bound(s.drop_first(), k)
    }
}

/// `s` ordered by name; elements with the same name keep their order.
pub open spec fn sorted_by_key<T: Keyed>(s: Seq<T>) -> Seq<T>
    decreases s.len(),
{
    if s.len() == 0 {
        s
    } else {
        let r = sorted_by_key(s.drop_last());
        r.insert(upper_bound(r, s.last().key_view()), s.last())
    }
}

/// `x` replaces the first element of `s` with its name, or, where there is none, is
/// inserted where its name belongs.
pub open spec fn upsert<T: Keyed>(s: Seq<T>, x: T) -> Seq<T> {
    let i = lower_bound(s, x.key_view());
    if i < s.len() && s[i].key_view() == x.key_view() {
        s.update(i, x)
    } else {
        s.insert(i, x)
    }
}

/// Each of `xs`, in turn, upserted into `s`.
pub open spec fn upsert_all<T: Keyed>(s: Seq<T>, xs: Seq<T>) -> Seq<T>
    decreases xs.len(),
{
    if xs.len() == 0 {
        s
    } else {
        upsert(upsert_all(s, xs.drop_last()), xs.last())
    }
}

/// `overrides` merged over `base`.
pub open spec fn merged<T: Keyed>(base: Seq<T>, overrides: Seq<T>) -> Seq<T> {
    upsert_all(sorted_by_key(base), overrides)
}

proof fn lemma_lower_bound<T: Keyed>(s: Seq<T>, k: Seq<char>)
    ensures
        0 <= lower_bound(s, k) <= s.len(),
        forall|j: int| 0 <= j < lower_bound(s, k) ==> key_lt(#[trigger] s[j].key_view(), k),
        lower_bound(s, k) < s.len() ==> !key_lt(s[lower_bound(s, k)].key_view(), k),
    decreases s.len(),
{
    if s.len() > 0 && key_lt(s[0].key_view(), k) {
        lemma_lower_bound(s.drop_first(), k);
        assert forall|j: int| 0 <= j < lower_bound(s, k) implies key_lt(#[trigger] s[j].key_view(), k) by {
            if j > 0 {
                assert(s[j] == s.drop_first()[j - 1]);
            }
        }
    }
}

proof fn lemma_upper_bound<T: Keyed>(s: Seq<T>, k: Seq<char>)
    ensures
        0 <= upper_bound(s, k) <= s.len(),
        forall|j: int| 0 <= j < upper_bound(s, k) ==> !key_lt(k, #[trigger] s[j].key_view()),
        upper_bound(s, k) < s.len() ==> key_lt(k, s[upper_bound(s, k)].key_view()),
    decreases s.len(),
{
    if s.len() > 0 && !key_lt(k, s[0].key_view()) {
        lemma_upper_bound(s.drop_first(), k);
        assert forall|j: int| 0 <= j < upper_bound(s, k) implies !key_lt(k, #[trigger] s[j].key_view()) by {
            if j > 0 {
                assert(s[j] == s.drop_first()[j - 1]);
            }
        }
    }
}

/// Inserting at a place where the name fits keeps `s` ordered.
proof fn lemma_insert_sorted<T: Keyed>(s: Seq<T>, i: int, x: T)
    requires
        keys_sorted(s),
        0 <= i <= s.len(),
        forall|j: int| 0 <= j < i ==> !key_lt(x.key_view(), #[trigger] s[j].key_view()),
        forall|j: int| i <= j < s.len() ==> !key_lt(#[trigger] s[j].key_view(), x.key_view()),
    ensures
        keys_sorted(s.insert(i, x)),
{
    let r = s.insert(i, x);
    assert forall|a: int, b: int| 0 <= a < b < r.len() implies !key_lt(#[trigger] r[b].key_view(), #[trigger] r[a].key_view()) by {
        if a < i && b < i {
            assert(r[a] == s[a] && r[b] == s[b]);
        } else if a < i && b == i {
            assert(r[a] == s[a]);
        } else if a < i && b > i {
            assert(r[a] == s[a] && r[b] == s[b - 1]);
        } else if a == i {
            assert(r[b] == s[b - 1]);
        } else {
            assert(r[a] == s[a - 1] && r[b] == s[b - 1]);
        }
    }
}

/// Inserting at the upper bound keeps an ordered sequence ordered.
proof fn lemma_insert_upper_sorted<T: Keyed>(s: Seq<T>, x: T)
    requires
        keys_sorted(s),
    ensures
        keys_sorted(s.insert(upper_bound(s, x.key_view()), x)),
{
    let k = x.key_view();
    let u = upper_bound(s, k);
    lemma_upper_bound(s, k);
    assert forall|j: int| u <= j < s.len() implies !key_lt(#[trigger] s[j].key_view(), k) by {
        lemma_key_lt_total(k, s[u].key_view());
        if key_lt(s[j].key_view(), k) {
            if j == u {
                lemma_key_lt_total(k, s[j].key_view());
            } else {
                lemma_key_lt_transitive(s[j].key_view(), k, s[u].key_view());
            }
        }
    }
    lemma_insert_sorted(s, u, x);
}

/// Upserting keeps an ordered sequence ordered.
proof fn lemma_upsert_sorted<T: Keyed>(s: Seq<T>, x: T)
    requires
        keys_sorted(s),
    ensures
        keys_sorted(upsert(s, x)),
{
    let k = x.key_view();
    let l = lower_bound(s, k);
    lemma_lower_bound(s, k);
    if l < s.len() && s[l].key_view() == k {
        let r = s.update(l, x);
        assert forall|a: int, b: int| 0 <= a < b < r.len() implies !key_lt(#[trigger] r[b].key_view(), #[trigger] r[a].key_view()) by {
            assert(r[a].key_view() == s[a].key_view());
            assert(r[b].key_view() == s[b].key_view());
        }
    } else {
        assert forall|j: int| 0 <= j < l implies !key_lt(k, #[trigger] s[j].key_view()) by {
            lemma_key_lt_total(k, s[j].key_view());
        }
        assert forall|j: int| l <= j < s.len() implies !key_lt(#[trigger] s[j].key_view(), k) by {
            if key_lt(s[j].key_view(), k) {
                lemma_key_lt_total(k, s[l].key_view());
                if j == l {
                } else if s[l].key_view() == k {
                } else {
                    lemma_key_lt_transitive(s[j].key_view(), k, s[l].key_view());
                }
            }
        }
        lemma_insert_sorted(s, l, x);
    }
}

pub proof fn lemma_sorted_by_key_sorted<T: Keyed>(s: Seq<T>)
    ensures
        keys_sorted(sorted_by_key(s)),
        sorted_by_key(s).len() == s.len(),
    decreases s.len(),
{
    if s.len() > 0 {
        lemma_sorted_by_key_sorted(s.drop_last());
        lemma_upper_bound(sorted_by_key(s.drop_last()), s.last().key_view());
        lemma_insert_upper_sorted(sorted_by_key(s.drop_last()), s.last());
    }
}

pub proof fn lemma_upsert_all_sorted<T: Keyed>(s: Seq<T>, xs: Seq<T>)
    requires
        keys_sorted(s),
    ensures
        keys_sorted(upsert_all(s, xs)),
    decreases xs.len(),
{
    if xs.len() > 0 {
        lemma_upsert_all_sorted(s, xs.drop_last());
        lemma_upsert_sorted(upsert_all(s, xs.drop_last()), xs.last());
    }
}


/// Sorting by name only reorders: the same elements, each as often.
pub proof fn lemma_sorted_by_key_permutes<T: Keyed>(s: Seq<T>)
    ensures
        sorted_by_key(s).to_multiset() == s.to_multiset(),
    decreases s.len(),
{
    if s.len() > 0 {
        lemma_sorted_by_key_permutes(s.drop_last());
        let r = sorted_by_key(s.drop_last());
        lemma_upper_bound(r, s.last().key_view());
        vstd::seq_lib::to_multiset_insert(r, upper_bound(r, s.last().key_view()), s.last());
        vstd::seq_lib::to_multiset_build(s.drop_last(), s.last());
        assert(s.drop_last().push(s.last()) =~= s);
    }
}

proof fn lemma_contains_via_multiset<T>(a: Seq<T>, b: Seq<T>, y: T)
    requires
        a.to_multiset() == b.to_multiset(),
    ensures
        a.contains(y) == b.contains(y),
{
    a.to_multiset_ensures();
    b.to_multiset_ensures();
    assert(a.contains(y) <==> a.to_multiset().count(y) > 0);
    assert(b.contains(y) <==> b.to_multiset().count(y) > 0);
}

proof fn lemma_has_key_from_contains<T: Keyed>(s: Seq<T>, k: Seq<char>)
    ensures
        has_key(s, k) <==> exists|y: T| s.contains(y) && y.key_view() == k,
{
    if has_key(s, k) {
        let i = choose|i: int| 0 <= i < s.len() && #[trigger] s[i].key_view() == k;
        assert(s.contains(s[i]));
    }
    if exists|y: T| s.contains(y) && y.key_view() == k {
        let y = choose|y: T| s.contains(y) && y.key_view() == k;
        let i = choose|i: int| 0 <= i < s.len() && s[i] == y;
        assert(s[i].key_view() == k);
    }
}

/// What an upsert keeps and adds.
proof fn lemma_upsert_contents<T: Keyed>(s: Seq<T>, x: T)
    ensures
        upsert(s, x).contains(x),
        forall|y: T| s.contains(y) && y.key_view() != x.key_view() ==> #[trigger] upsert(s, x).contains(y),
        forall|y: T| #[trigger] upsert(s, x).contains(y) ==> y == x || s.contains(y),
        forall|k: Seq<char>| #[trigger] has_key(upsert(s, x), k) <==> (has_key(s, k) || k == x.key_view()),
{
    let k0 = x.key_view();
    let l = lower_bound(s, k0);
    lemma_lower_bound(s, k0);
    let r = upsert(s, x);
    if l < s.len() && s[l].key_view() == k0 {
        assert(r[l] == x);
        assert forall|y: T| s.contains(y) && y.key_view() != x.key_view() implies #[trigger] r.contains(y) by {
            let i = choose|i: int| 0 <= i < s.len() && s[i] == y;
            assert(i != l);
            assert(r[i] == y);
        }
        assert forall|y: T| #[trigger] r.contains(y) implies y == x || s.contains(y) by {
            let i = choose|i: int| 0 <= i < r.len() && r[i] == y;
            if i != l {
                assert(s[i] == y);
            }
        }
        assert forall|k: Seq<char>| #[trigger] has_key(r, k) <==> (has_key(s, k) || k == x.key_view()) by {
            if has_key(r, k) {
                let i = choose|i: int| 0 <= i < r.len() && #[trigger] r[i].key_view() == k;
                assert(s[i].key_view() == k);
            }
            if has_key(s, k) {
                let i = choose|i: int| 0 <= i < s.len() && #[trigger] s[i].key_view() == k;
                assert(r[i].key_view() == k);
            }
            if k == x.key_view() {
                assert(r[l].key_view() == k);
            }
        }
    } else {
        assert(r[l] == x);
        assert forall|y: T| s.contains(y) && y.key_view() != x.key_view() implies #[trigger] r.contains(y) by {
            let i = choose|i: int| 0 <= i < s.len() && s[i] == y;
            if i < l {
                assert(r[i] == y);
            } else {
                assert(r[i + 1] == y);
            }
        }
        assert forall|y: T| #[trigger] r.contains(y) implies y == x || s.contains(y) by {
            let i = choose|i: int| 0 <= i < r.len() && r[i] == y;
            if i < l {
                assert(s[i] == y);
            } else if i > l {
                assert(s[i - 1] == y);
            }
        }
        assert forall|k: Seq<char>| #[trigger] has_key(r, k) <==> (has_key(s, k) || k == x.key_view()) by {
            if has_key(r, k) {
                let i = choose|i: int| 0 <= i < r.len() && #[trigger] r[i].key_view() == k;
                if i < l {
                    assert(s[i].key_view() == k);
                } else if i > l {
                    assert(s[i - 1].key_view() == k);
                }
            }
            if has_key(s, k) {
                let i = choose|i: int| 0 <= i < s.len() && #[trigger] s[i].key_view() == k;
                if i < l {
                    assert(r[i].key_view() == k);
                } else {
                    assert(r[i + 1].key_view() == k);
                }
            }
            if k == x.key_view() {
                assert(r[l].key_view() == k);
            }
        }
    }
}

proof fn lemma_upsert_all_contents<T: Keyed>(s: Seq<T>, xs: Seq<T>)
    ensures
        forall|k: Seq<char>| #[trigger] has_key(upsert_all(s, xs), k) <==> (has_key(s, k) || has_key(xs, k)),
        forall|j: int| 0 <= j < xs.len() && (forall|j2: int| j < j2 < xs.len() ==> #[trigger] xs[j2].key_view() != xs[j].key_view())
            ==> #[trigger] upsert_all(s, xs).contains(xs[j]),
        forall|y: T| s.contains(y) && !has_key(xs, y.key_view()) ==> #[trigger] upsert_all(s, xs).contains(y),
        forall|y: T| #[trigger] upsert_all(s, xs).contains(y) ==> s.contains(y) || xs.contains(y),
    decreases xs.len(),
{
    if xs.len() > 0 {
        let p = xs.drop_last();
        let x = xs.last();
        lemma_upsert_all_contents(s, p);
        let prev = upsert_all(s, p);
        lemma_upsert_contents(prev, x);
        assert forall|k: Seq<char>| #[trigger] has_key(upsert_all(s, xs), k) <==> (has_key(s, k) || has_key(xs, k)) by {
            assert(has_key(upsert(prev, x), k) <==> (has_key(prev, k) || k == x.key_view()));
            if has_key(p, k) {
                let i = choose|i: int| 0 <= i < p.len() && #[trigger] p[i].key_view() == k;
                assert(xs[i].key_view() == k);
            }
            if has_key(xs, k) {
                let i = choose|i: int| 0 <= i < xs.len() && #[trigger] xs[i].key_view() == k;
                if i < p.len() {
                    assert(p[i].key_view() == k);
                }
            }
        }
        assert forall|j: int| 0 <= j < xs.len() && (forall|j2: int| j < j2 < xs.len() ==> #[trigger] xs[j2].key_view() != xs[j].key_view())
            implies #[trigger] upsert_all(s, xs).contains(xs[j]) by {
            if j < p.len() {
                assert(xs[xs.len() - 1].key_view() != xs[j].key_view());
                assert(p[j] == xs[j]);
                assert forall|j2: int| j < j2 < p.len() implies #[trigger] p[j2].key_view() != p[j].key_view() by {
                    assert(p[j2] == xs[j2]);
                }
                assert(prev.contains(p[j]));
            }
        }
        assert forall|y: T| s.contains(y) && !has_key(xs, y.key_view()) implies #[trigger] upsert_all(s, xs).contains(y) by {
            if has_key(p, y.key_view()) {
                let i = choose|i: int| 0 <= i < p.len() && #[trigger] p[i].key_view() == y.key_view();
                assert(xs[i].key_view() == y.key_view());
            }
            assert(xs[xs.len() - 1].key_view() == x.key_view());
            assert(prev.contains(y));
        }
        assert forall|y: T| #[trigger] upsert_all(s, xs).contains(y) implies s.contains(y) || xs.contains(y) by {
            if y == x {
                assert(xs[xs.len() - 1] == y);
            } else {
                assert(prev.contains(y));
                if p.contains(y) {
                    let i = choose|i: int| 0 <= i < p.len() && p[i] == y;
                    assert(xs[i] == y);
                }
            }
        }
    }
}

/// Merged definitions are ordered by name.
pub proof fn lemma_merged_sorted<T: Keyed>(base: Seq<T>, overrides: Seq<T>)
    ensures
        keys_sorted(merged(base, overrides)),
{
    lemma_sorted_by_key_sorted(base);
    lemma_upsert_all_sorted(sorted_by_key(base), overrides);
}

/// The merged definitions name exactly the names of the base and of the overrides;
/// the last override of each name is among them, every base definition whose name is
/// not overridden stays, and nothing else comes in.
pub proof fn lemma_merged_contents<T: Keyed>(base: Seq<T>, overrides: Seq<T>)
    ensures
        forall|k: Seq<char>| #[trigger] has_key(merged(base, overrides), k) <==> (has_key(base, k) || has_key(overrides, k)),
        forall|j: int| 0 <= j < overrides.len()
            && (forall|j2: int| j < j2 < overrides.len() ==> #[trigger] overrides[j2].key_view() != overrides[j].key_view())
            ==> #[trigger] merged(base, overrides).contains(overrides[j]),
        forall|y: T| base.contains(y) && !has_key(overrides, y.key_view()) ==> #[trigger] merged(base, overrides).contains(y),
        forall|y: T| #[trigger] merged(base, overrides).contains(y) ==> base.contains(y) || overrides.contains(y),
{
    let sb = sorted_by_key(base);
    lemma_sorted_by_key_permutes(base);
    lemma_upsert_all_contents(sb, overrides);
    assert forall|y: T| sb.contains(y) == base.contains(y) by {
        lemma_contains_via_multiset(sb, base, y);
    }
    assert forall|k: Seq<char>| has_key(sb, k) == has_key(base, k) by {
        lemma_has_key_from_contains(sb, k);
        lemma_has_key_from_contains(base, k);
    }
}

/// Merging the empty list of overrides just orders the base.
pub proof fn lemma_merge_nothing<T: Keyed>(base: Seq<T>)
    ensures
        merged(base, Seq::<T>::empty()) == sorted_by_key(base),
{
}

/// No two elements of `s` share a name.
pub open spec fn keys_unique<T: Keyed>(s: Seq<T>) -> bool {
    forall|i: int, j: int| 0 <= i < j < s.len() ==> #[trigger] s[i].key_view() != #[trigger] s[j].key_view()
}

/// The names in `s` strictly ascend.
pub open spec fn keys_strictly_sorted<T: Keyed>(s: Seq<T>) -> bool {
    forall|i: int, j: int| 0 <= i < j < s.len() ==> key_lt(#[trigger] s[i].key_view(), #[trigger] s[j].key_view())
}

/// The last element of `s` named `k`, if there is one.
pub open spec fn last_named<T: Keyed>(s: Seq<T>, k: Seq<char>) -> Option<T>
    decreases s.len(),
{
    if s.len() == 0 {
        None
    } else if s.last().key_view() == k {
        Some(s.last())
    } else {
        last_named(s.drop_last(), k)
    }
}

/// The definition named `k` that a merge keeps: the last override of that name, or
/// else the base's definition of it.
pub open spec fn merge_winner<T: Keyed>(base: Seq<T>, overrides: Seq<T>, k: Seq<char>) -> Option<T> {
    match last_named(overrides, k) {
        Some(y) => Some(y),
        None => last_named(base, k),
    }
}

proof fn lemma_last_named<T: Keyed>(s: Seq<T>, k: Seq<char>)
    ensures
        last_named(s, k) is Some <==> has_key(s, k),
        last_named(s, k) matches Some(y) ==> s.contains(y) && y.key_view() == k,
    decreases s.len(),
{
    if s.len() > 0 {
        let p = s.drop_last();
        lemma_last_named(p, k);
        if s.last().key_view() == k {
            assert(s[s.len() - 1] == s.last());
        } else {
            if has_key(s, k) {
                let i = choose|i: int| 0 <= i < s.len() && #[trigger] s[i].key_view() == k;
                assert(i != s.len() - 1);
                assert(p[i].key_view() == k);
            }
            if has_key(p, k) {
                let i = choose|i: int| 0 <= i < p.len() && #[trigger] p[i].key_view() == k;
                assert(s[i].key_view() == k);
            }
            if let Some(y) = last_named(p, k) {
                let i = choose|i: int| 0 <= i < p.len() && p[i] == y;
                assert(s[i] == y);
            }
        }
    }
}

/// In a sequence without repeated names, the element named as `y` is `y` itself.
proof fn lemma_last_named_unique<T: Keyed>(s: Seq<T>, y: T)
    requires
        keys_unique(s),
        s.contains(y),
    ensures
        last_named(s, y.key_view()) == Some(y),
    decreases s.len(),
{
    let p = s.drop_last();
    if s.last() != y {
        let i = choose|i: int| 0 <= i < s.len() && s[i] == y;
        assert(i != s.len() - 1);
        assert(s[i].key_view() != s[s.len() - 1].key_view());
        assert(p[i] == y);
        assert forall|a: int, b: int| 0 <= a < b < p.len() implies #[trigger] p[a].key_view() != #[trigger] p[b].key_view() by {
            assert(s[a] == p[a] && s[b] == p[b]);
        }
        lemma_last_named_unique(p, y);
    }
}

/// An ordered sequence without repeated names is strictly ordered.
proof fn lemma_sorted_unique_strict<T: Keyed>(s: Seq<T>)
    requires
        keys_sorted(s),
        keys_unique(s),
    ensures
        keys_strictly_sorted(s),
{
    assert forall|i: int, j: int| 0 <= i < j < s.len() implies key_lt(#[trigger] s[i].key_view(), #[trigger] s[j].key_view()) by {
        lemma_key_lt_total(s[i].key_view(), s[j].key_view());
    }
}

/// Inserting an element with a new name keeps the names unique.
proof fn lemma_insert_unique<T: Keyed>(s: Seq<T>, i: int, x: T)
    requires
        keys_unique(s),
        !has_key(s, x.key_view()),
        0 <= i <= s.len(),
    ensures
        keys_unique(s.insert(i, x)),
{
    let r = s.insert(i, x);
    assert forall|a: int, b: int| 0 <= a < b < r.len() implies #[trigger] r[a].key_view() != #[trigger] r[b].key_view() by {
        if a < i && b < i {
            assert(r[a] == s[a] && r[b] == s[b]);
        } else if a < i && b == i {
            assert(r[a] == s[a]);
        } else if a < i && b > i {
            assert(r[a] == s[a] && r[b] == s[b - 1]);
        } else if a == i {
            assert(r[b] == s[b - 1]);
        } else {
            assert(r[a] == s[a - 1] && r[b] == s[b - 1]);
        }
    }
}

/// Ordering by name keeps the names, and so keeps them unique.
proof fn lemma_sorted_by_key_unique<T: Keyed>(s: Seq<T>)
    requires
        keys_unique(s),
    ensures
        keys_unique(sorted_by_key(s)),
        forall|k: Seq<char>| #[trigger] has_key(sorted_by_key(s), k) == has_key(s, k),
        forall|y: T| #[trigger] sorted_by_key(s).contains(y) == s.contains(y),
    decreases s.len(),
{
    let sb = sorted_by_key(s);
    lemma_sorted_by_key_permutes(s);
    assert forall|y: T| #[trigger] sb.contains(y) == s.contains(y) by {
        lemma_contains_via_multiset(sb, s, y);
    }
    assert forall|k: Seq<char>| #[trigger] has_key(sb, k) == has_key(s, k) by {
        lemma_has_key_from_contains(sb, k);
        lemma_has_key_from_contains(s, k);
    }
    if s.len() > 0 {
        let p = s.drop_last();
        assert forall|a: int, b: int| 0 <= a < b < p.len() implies #[trigger] p[a].key_view() != #[trigger] p[b].key_view() by {
            assert(s[a] == p[a] && s[b] == p[b]);
        }
        lemma_sorted_by_key_unique(p);
        let r = sorted_by_key(p);
        let x = s.last();
        if has_key(p, x.key_view()) {
            let i = choose|i: int| 0 <= i < p.len() && #[trigger] p[i].key_view() == x.key_view();
            assert(s[i] == p[i]);
            assert(s[s.len() - 1] == x);
        }
        assert(!has_key(r, x.key_view()));
        lemma_upper_bound(r, x.key_view());
        lemma_insert_unique(r, upper_bound(r, x.key_view()), x);
    }
}

/// Upserting into an ordered sequence without repeated names keeps the names unique;
/// every element of the result is `x` or an element of `s` with another name.
proof fn lemma_upsert_unique<T: Keyed>(s: Seq<T>, x: T)
    requires
        keys_sorted(s),
        keys_unique(s),
    ensures
        keys_unique(upsert(s, x)),
        forall|i: int| 0 <= i < upsert(s, x).len() ==> #[trigger] upsert(s, x)[i] == x
            || (s.contains(upsert(s, x)[i]) && upsert(s, x)[i].key_view() != x.key_view()),
{
    let k = x.key_view();
    let l = lower_bound(s, k);
    lemma_lower_bound(s, k);
    let r = upsert(s, x);
    if l < s.len() && s[l].key_view() == k {
        assert forall|a: int, b: int| 0 <= a < b < r.len() implies #[trigger] r[a].key_view() != #[trigger] r[b].key_view() by {
            assert(r[a].key_view() == s[a].key_view());
            assert(r[b].key_view() == s[b].key_view());
        }
        assert forall|i: int| 0 <= i < r.len() implies #[trigger] r[i] == x
            || (s.contains(r[i]) && r[i].key_view() != x.key_view()) by {
            if i != l {
                assert(r[i] == s[i]);
                if i < l {
                    assert(s[i].key_view() != s[l].key_view());
                } else {
                    assert(s[l].key_view() != s[i].key_view());
                }
            }
        }
    } else {
        assert(!has_key(s, k)) by {
            if has_key(s, k) {
                let j = choose|j: int| 0 <= j < s.len() && #[trigger] s[j].key_view() == k;
                if j < l {
                    lemma_key_lt_irreflexive(k);
                } else {
                    lemma_key_lt_total(k, s[l].key_view());
                    if j > l {
                        assert(!key_lt(s[j].key_view(), s[l].key_view()));
                    }
                }
            }
        }
        lemma_insert_unique(s, l, x);
        assert forall|i: int| 0 <= i < r.len() implies #[trigger] r[i] == x
            || (s.contains(r[i]) && r[i].key_view() != x.key_view()) by {
            if i < l {
                assert(r[i] == s[i]);
            } else if i > l {
                assert(r[i] == s[i - 1]);
            }
        }
    }
}

proof fn lemma_upsert_all_winner<T: Keyed>(s: Seq<T>, xs: Seq<T>)
    requires
        keys_sorted(s),
        keys_unique(s),
    ensures
        keys_sorted(upsert_all(s, xs)),
        keys_unique(upsert_all(s, xs)),
        forall|i: int| 0 <= i < upsert_all(s, xs).len() ==> Some(#[trigger] upsert_all(s, xs)[i])
            == merge_winner(s, xs, upsert_all(s, xs)[i].key_view()),
    decreases xs.len(),
{
    lemma_upsert_all_sorted(s, xs);
    if xs.len() == 0 {
        assert forall|i: int| 0 <= i < s.len() implies Some(#[trigger] s[i]) == merge_winner(s, xs, s[i].key_view()) by {
            assert(s.contains(s[i]));
            lemma_last_named_unique(s, s[i]);
        }
    } else {
        let p = xs.drop_last();
        let x = xs.last();
        lemma_upsert_all_winner(s, p);
        let prev = upsert_all(s, p);
        lemma_upsert_unique(prev, x);
        let r = upsert(prev, x);
        assert forall|i: int| 0 <= i < r.len() implies Some(#[trigger] r[i]) == merge_winner(s, xs, r[i].key_view()) by {
            if r[i] == x {
                assert(last_named(xs, x.key_view()) == Some(x));
            } else {
                let y = r[i];
                let j = choose|j: int| 0 <= j < prev.len() && prev[j] == y;
                assert(Some(prev[j]) == merge_winner(s, p, prev[j].key_view()));
                assert(last_named(xs, y.key_view()) == last_named(p, y.key_view()));
            }
        }
    }
}

/// Over a base without repeated names, a merge keeps the names unique, in strictly
/// ascending order, and the definition kept under each name is the last override of
/// that name or, where there is none, the base's definition of it. Which names there
/// are is `lemma_merged_contents`'s statement.
pub proof fn lemma_merged_unique<T: Keyed>(base: Seq<T>, overrides: Seq<T>)
    requires
        keys_unique(base),
    ensures
        keys_strictly_sorted(merged(base, overrides)),
        forall|i: int| 0 <= i < merged(base, overrides).len() ==> Some(#[trigger] merged(base, overrides)[i])
            == merge_winner(base, overrides, merged(base, overrides)[i].key_view()),
        forall|k: Seq<char>| #[trigger] has_key(merged(base, overrides), k) <==> merge_winner(base, overrides, k) is Some,
{
    let sb = sorted_by_key(base);
    let m = merged(base, overrides);
    lemma_sorted_by_key_sorted(base);
    lemma_sorted_by_key_unique(base);
    lemma_upsert_all_winner(sb, overrides);
    lemma_sorted_unique_strict(m);
    lemma_merged_contents(base, overrides);
    assert forall|i: int| 0 <= i < m.len() implies Some(#[trigger] m[i]) == merge_winner(base, overrides, m[i].key_view()) by {
        let k = m[i].key_view();
        assert(Some(m[i]) == merge_winner(sb, overrides, k));
        if last_named(overrides, k) is None {
            lemma_last_named(sb, k);
            assert(sb.contains(m[i]));
            assert(base.contains(m[i]));
            lemma_last_named_unique(base, m[i]);
        }
    }
    assert forall|k: Seq<char>| #[trigger] has_key(m, k) <==> merge_winner(base, overrides, k) is Some by {
        lemma_last_named(overrides, k);
        lemma_last_named(base, k);
    }
}

/// The position at which `k` would be inserted after the names that do not come
/// after it.
fn upper_bound_index<T: Keyed>(s: &Vec<T>, k: &str) -> (r: usize)
    ensures
        r == upper_bound(s@, k@),
        r <= s.len(),
{
    let mut i: usize = 0;
    assert(s@.skip(0) =~= s@);
    while i < s.len()
        invariant
            i <= s.len(),
            upper_bound(s@, k@) == i + upper_bound(s@.skip(i as int), k@),
        decreases s.len() - i,
    {
        assert(s@.skip(i as int)[0] == s@[i as int]);
        assert(s@.skip(i as int).drop_first() =~= s@.skip(i + 1));
        if compare_keys(k, s[i].key()) == KeyOrder::Less {
            return i;
        }
        i = i + 1;
    }
    i
}

/// The first position whose name does not come before `k`.
fn lower_bound_index<T: Keyed>(s: &Vec<T>, k: &str) -> (r: usize)
    ensures
        r == lower_bound(s@, k@),
        r <= s.len(),
{
    let mut i: usize = 0;
    assert(s@.skip(0) =~= s@);
    while i < s.len()
        invariant
            i <= s.len(),
            lower_bound(s@, k@) == i + lower_bound(s@.skip(i as int), k@),
        decreases s.len() - i,
    {
        assert(s@.skip(i as int)[0] == s@[i as int]);
        assert(s@.skip(i as int).drop_first() =~= s@.skip(i + 1));
        if compare_keys(s[i].key(), k) != KeyOrder::Less {
            return i;
        }
        i = i + 1;
    }
    i
}

/// Orders `items` by name, keeping the order of elements with the same name.
pub fn sort_by_key<T: Keyed>(items: Vec<T>) -> (r: Vec<T>)
    ensures
        r@ == sorted_by_key(items@),
{
    let ghost orig = items@;
    let mut items = items;
    let mut res: Vec<T> = Vec::new();
    let ghost mut n: int = 0;
    assert(orig.take(0) =~= Seq::<T>::empty());
    assert(orig.skip(0) =~= orig);
    while items.len() > 0
        invariant
            0 <= n <= orig.len(),
            items@ == orig.skip(n),
            res@ == sorted_by_key(orig.take(n)),
        decreases items.len(),
    {
        let x = items.remove(0);
        let u = upper_bound_index(&res, x.key());
        res.insert(u, x);
        proof {
            assert(orig.take(n + 1).drop_last() =~= orig.take(n));
            assert(orig.take(n + 1).last() == x);
            assert(orig.skip(n).drop_first() =~= orig.skip(n + 1));
            n = n + 1;
        }
    }
    assert(orig.take(n) =~= orig);
    res
}

/// Merges `overrides` over `base` (see `merged`).
pub fn merge_by_key<T: Keyed>(base: Vec<T>, overrides: Vec<T>) -> (r: Vec<T>)
    ensures
        r@ == merged(base@, overrides@),
{
    let mut res = sort_by_key(base);
    let ghost start = res@;
    let ghost orig = overrides@;
    let mut overrides = overrides;
    let ghost mut n: int = 0;
    assert(orig.take(0) =~= Seq::<T>::empty());
    assert(orig.skip(0) =~= orig);
    while overrides.len() > 0
        invariant
            0 <= n <= orig.len(),
            overrides@ == orig.skip(n),
            res@ == upsert_all(start, orig.take(n)),
        decreases overrides.len(),
    {
        let x = overrides.remove(0);
        let l = lower_bound_index(&res, x.key());
        let found = l < res.len() && compare_keys(res[l].key(), x.key()) == KeyOrder::Equal;
        if found {
            res.set(l, x);
        } else {
            res.insert(l, x);
        }
        proof {
            assert(orig.take(n + 1).drop_last() =~= orig.take(n));
            assert(orig.take(n + 1).last() == x);
            assert(orig.skip(n).drop_first() =~= orig.skip(n + 1));
            n = n + 1;
        }
    }
    assert(orig.take(n) =~= orig);
    res
}

} // verus!
