//! Vectors of records looked up by a string key, seen as maps.

use vstd::prelude::*;

verus! {

/// A record that is stored under a string key.
pub trait Keyed: View {
    spec fn key_view(&self) -> Seq<char>;

    fn key(&self) -> (k: &String)
        ensures
            k@ == self.key_view(),
    ;
}

/// A record that can be copied with an equal view.
pub trait Record: View + Sized {
    fn duplicate(&self) -> (r: Self)
        ensures
            r@ == self@,
    ;
}

/// The views of the records of `s`, in order.
pub open spec fn views<T: View>(s: Seq<T>) -> Seq<T::V> {
    s.map_values(|t: T| t@)
}

/// Copy of a vector of records, view for view.
pub fn duplicate_all<T: Record>(v: &Vec<T>) -> (r: Vec<T>)
    ensures
        views(r@) == views(v@),
{
    let mut out: Vec<T> = Vec::new();
    let mut i: usize = 0;
    while i < v.len()
        invariant
            i <= v.len(),
            views(out@) == views(v@).take(i as int),
        decreases v.len() - i,
    {
        let ghost old_out = out@;
        out.push(v[i].duplicate());
        proof {
            assert(views(out@) =~= views(old_out).push(v@[i as int]@));
            assert(views(v@).take(i as int + 1) =~= views(v@).take(i as int).push(v@[i as int]@));
        }
        i = i + 1;
    }
    proof {
        assert(views(v@).take(v.len() as int) =~= views(v@));
    }
    out
}

/// No two records of `s` share a key.
pub open spec fn keys_unique<T: Keyed>(s: Seq<T>) -> bool {
    forall|i: int, j: int|
        0 <= i < s.len() && 0 <= j < s.len() && #[trigger] s[i].key_view()
            == #[trigger] s[j].key_view() ==> i == j
}

/// Some record of `s` has key `k`.
pub open spec fn has_key<T: Keyed>(s: Seq<T>, k: Seq<char>) -> bool {
    exists|i: int| 0 <= i < s.len() && #[trigger] s[i].key_view() == k
}

/// A position of `s` whose record has key `k` (meaningful when `has_key(s, k)`).
pub open spec fn key_index<T: Keyed>(s: Seq<T>, k: Seq<char>) -> int {
    choose|i: int| 0 <= i < s.len() && #[trigger] s[i].key_view() == k
}

/// The map from key to record view that a vector of records with unique keys stands for.
pub open spec fn keyed_map<T: Keyed>(s: Seq<T>) -> Map<Seq<char>, T::V> {
    Map::new(|k: Seq<char>| has_key(s, k), |k: Seq<char>| s[key_index(s, k)]@)
}

/// The map built by inserting the records of `s` in order, a later record
/// replacing an earlier one with the same key.
pub open spec fn insert_all<T: Keyed>(m: Map<Seq<char>, T::V>, s: Seq<T>) -> Map<Seq<char>, T::V>
    decreases s.len(),
{
    if s.len() == 0 {
        m
    } else {
        insert_all(m, s.drop_last()).insert(s.last().key_view(), s.last()@)
    }
}

pub proof fn lemma_keyed_lookup<T: Keyed>(s: Seq<T>, i: int)
    requires
        keys_unique(s),
        0 <= i < s.len(),
    ensures
        keyed_map(s).contains_key(s[i].key_view()),
        keyed_map(s)[s[i].key_view()] == s[i]@,
{
    let k = s[i].key_view();
    assert(has_key(s, k));
    let j = key_index(s, k);
    assert(s[j].key_view() == k);
}

pub proof fn lemma_keyed_empty<T: Keyed>(s: Seq<T>)
    requires
        s.len() == 0,
    ensures
        keys_unique(s),
        keyed_map(s) == Map::<Seq<char>, T::V>::empty(),
{
    assert(keyed_map(s) =~= Map::<Seq<char>, T::V>::empty());
}

pub proof fn lemma_keyed_update<T: Keyed>(s: Seq<T>, i: int, v: T)
    requires
        keys_unique(s),
        0 <= i < s.len(),
        v.key_view() == s[i].key_view(),
    ensures
        keys_unique(s.update(i, v)),
        keyed_map(s.update(i, v)) == keyed_map(s).insert(v.key_view(), v@),
{
    let t = s.update(i, v);
    assert forall|a: int, b: int|
        0 <= a < t.len() && 0 <= b < t.len() && #[trigger] t[a].key_view()
            == #[trigger] t[b].key_view() implies a == b by {
        assert(t[a].key_view() == s[a].key_view());
        assert(t[b].key_view() == s[b].key_view());
    }
    let m = keyed_map(s).insert(v.key_view(), v@);
    assert forall|k: Seq<char>| #[trigger] keyed_map(t).contains_key(k) <==> m.contains_key(k) by {
        if has_key(t, k) {
            let j = choose|j: int| 0 <= j < t.len() && #[trigger] t[j].key_view() == k;
            if j != i {
                assert(s[j].key_view() == k);
            }
        }
        if has_key(s, k) {
            let j = choose|j: int| 0 <= j < s.len() && #[trigger] s[j].key_view() == k;
            assert(t[j].key_view() == k);
        }
        if k == v.key_view() {
            assert(t[i].key_view() == k);
        }
    }
    assert forall|k: Seq<char>| #[trigger] keyed_map(t).contains_key(k) implies keyed_map(t)[k]
        == m[k] by {
        let j = key_index(t, k);
        assert(t[j].key_view() == k);
        if k == v.key_view() {
            assert(t[i].key_view() == k);
            assert(j == i);
        } else {
            assert(j != i);
            assert(s[j].key_view() == k);
            let j2 = key_index(s, k);
            assert(s[j2].key_view() == k);
            assert(j2 == j);
        }
    }
    assert(keyed_map(t) =~= m);
}

pub proof fn lemma_keyed_push<T: Keyed>(s: Seq<T>, v: T)
    requires
        keys_unique(s),
        !has_key(s, v.key_view()),
    ensures
        keys_unique(s.push(v)),
        keyed_map(s.push(v)) == keyed_map(s).insert(v.key_view(), v@),
{
    let t = s.push(v);
    let n = s.len() as int;
    assert forall|a: int, b: int|
        0 <= a < t.len() && 0 <= b < t.len() && #[trigger] t[a].key_view()
            == #[trigger] t[b].key_view() implies a == b by {
        if a < n && b < n {
            assert(t[a] == s[a] && t[b] == s[b]);
        } else if a < n {
            assert(t[a] == s[a]);
            assert(s[a].key_view() == v.key_view());
        } else if b < n {
            assert(t[b] == s[b]);
            assert(s[b].key_view() == v.key_view());
        }
    }
    let m = keyed_map(s).insert(v.key_view(), v@);
    assert forall|k: Seq<char>| #[trigger] keyed_map(t).contains_key(k) <==> m.contains_key(k) by {
        if has_key(t, k) {
            let j = choose|j: int| 0 <= j < t.len() && #[trigger] t[j].key_view() == k;
            if j < n {
                assert(t[j] == s[j]);
                assert(s[j].key_view() == k);
            }
        }
        if has_key(s, k) {
            let j = choose|j: int| 0 <= j < s.len() && #[trigger] s[j].key_view() == k;
            assert(t[j] == s[j]);
            assert(t[j].key_view() == k);
        }
        if k == v.key_view() {
            assert(t[n].key_view() == k);
        }
    }
    assert forall|k: Seq<char>| #[trigger] keyed_map(t).contains_key(k) implies keyed_map(t)[k]
        == m[k] by {
        let j = key_index(t, k);
        assert(t[j].key_view() == k);
        if k == v.key_view() {
            assert(t[n].key_view() == k);
            assert(j == n);
        } else {
            assert(j != n);
            assert(t[j] == s[j]);
            assert(s[j].key_view() == k);
            let j2 = key_index(s, k);
            assert(s[j2].key_view() == k);
            assert(j2 == j);
        }
    }
    assert(keyed_map(t) =~= m);
}

/// Two vectors that agree record by record, in key and view, stand for the same map.
pub proof fn lemma_keyed_same<T: Keyed>(s: Seq<T>, r: Seq<T>)
    requires
        keys_unique(s),
        r.len() == s.len(),
        forall|i: int| 0 <= i < s.len() ==> #[trigger] r[i].key_view() == s[i].key_view() && r[i]@ == s[i]@,
    ensures
        keys_unique(r),
        keyed_map(r) == keyed_map(s),
{
    assert forall|a: int, b: int|
        0 <= a < r.len() && 0 <= b < r.len() && #[trigger] r[a].key_view()
            == #[trigger] r[b].key_view() implies a == b by {
        assert(s[a].key_view() == r[a].key_view());
        assert(s[b].key_view() == r[b].key_view());
    }
    assert forall|k: Seq<char>| #[trigger] keyed_map(r).contains_key(k) <==> keyed_map(s).contains_key(k) by {
        if has_key(r, k) {
            let j = choose|j: int| 0 <= j < r.len() && #[trigger] r[j].key_view() == k;
            assert(s[j].key_view() == k);
        }
        if has_key(s, k) {
            let j = choose|j: int| 0 <= j < s.len() && #[trigger] s[j].key_view() == k;
            assert(r[j].key_view() == k);
        }
    }
    assert forall|k: Seq<char>| #[trigger] keyed_map(r).contains_key(k) implies keyed_map(r)[k]
        == keyed_map(s)[k] by {
        let j = key_index(r, k);
        assert(r[j].key_view() == k);
        let j2 = key_index(s, k);
        assert(s[j2].key_view() == k);
        assert(r[j2].key_view() == k);
    }
    assert(keyed_map(r) =~= keyed_map(s));
}

/// Position of the record with key `k` in `v`, if there is one.
pub fn find_key<T: Keyed>(v: &Vec<T>, k: &String) -> (r: Option<usize>)
    ensures
        match r {
            Some(i) => i < v@.len() && v@[i as int].key_view() == k@,
            None => !has_key(v@, k@),
        },
{
    let mut i: usize = 0;
    while i < v.len()
        invariant
            i <= v.len(),
            forall|j: int| 0 <= j < i ==> #[trigger] v@[j].key_view() != k@,
        decreases v.len() - i,
    {
        if v[i].key().eq(k) {
            return Some(i);
        }
        i = i + 1;
    }
    None
}

/// Stores `x` under its key, replacing the record that had that key.
pub fn put_keyed<T: Keyed>(v: &mut Vec<T>, x: T)
    requires
        keys_unique(old(v)@),
    ensures
        keys_unique(final(v)@),
        keyed_map(final(v)@) == keyed_map(old(v)@).insert(x.key_view(), x@),
{
    match find_key(v, x.key()) {
        Some(i) => {
            proof {
                lemma_keyed_update(v@, i as int, x);
            }
            v[i] = x;
        },
        None => {
            proof {
                lemma_keyed_push(v@, x);
            }
            v.push(x);
        },
    }
}

/// Builds a keyed vector from `items`, a later record replacing an earlier one with the same key.
pub fn collect_keyed<T: Keyed>(items: Vec<T>) -> (r: Vec<T>)
    ensures
        keys_unique(r@),
        keyed_map(r@) == insert_all(Map::<Seq<char>, T::V>::empty(), items@),
{
    let ghost orig = items@;
    let mut rest = items;
    let mut out: Vec<T> = Vec::new();
    let mut done: usize = 0;
    let total = rest.len();
    proof {
        lemma_keyed_empty(out@);
        assert(orig.take(0) =~= Seq::<T>::empty());
    }
    while 0 < rest.len()
        invariant
            total == orig.len(),
            done + rest@.len() == total,
            rest@ == orig.skip(done as int),
            keys_unique(out@),
            keyed_map(out@) == insert_all(Map::<Seq<char>, T::V>::empty(), orig.take(done as int)),
        decreases rest@.len(),
    {
        let x = rest.remove(0);
        proof {
            assert(x == orig[done as int]);
            assert(orig.take(done as int + 1).drop_last() =~= orig.take(done as int));
            assert(orig.take(done as int + 1).last() == x);
        }
        put_keyed(&mut out, x);
        done = done + 1;
        proof {
            assert(rest@ =~= orig.skip(done as int));
        }
    }
    proof {
        assert(orig.take(done as int) =~= orig);
    }
    out
}

} // verus!
