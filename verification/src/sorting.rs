//! Stable ordering of records from the largest sort key to the smallest.

use crate::keyed::views;
use vstd::prelude::*;

verus! {

/// A record ordered by an integer key that depends on its view only.
pub trait SortKey: View + Sized {
    spec fn view_key(v: Self::V) -> int;

    fn sort_key_exec(&self) -> (k: i64)
        ensures
            k == Self::view_key(self@),
    ;
}


/// `x` placed into `s` after every record whose key is at least `x`'s.
pub open spec fn insert_desc<A>(s: Seq<A>, x: A, key: spec_fn(A) -> int) -> Seq<A>
    decreases s.len(),
{
    if s.len() == 0 {
        seq![x]
    } else if key(s[0]) < key(x) {
        seq![x] + s
    } else {
        seq![s[0]] + insert_desc(s.drop_first(), x, key)
    }
}

/// The records of `s` from the largest key to the smallest; records with equal
/// keys keep their order in `s`.
pub open spec fn sort_desc<A>(s: Seq<A>, key: spec_fn(A) -> int) -> Seq<A>
    decreases s.len(),
{
    if s.len() == 0 {
        Seq::empty()
    } else {
        insert_desc(sort_desc(s.drop_last(), key), s.last(), key)
    }
}

/// Keys never increase along `s`.
pub open spec fn sorted_desc<A>(s: Seq<A>, key: spec_fn(A) -> int) -> bool {
    forall|i: int, j: int| 0 <= i < j < s.len() ==> key(s[i]) >= key(s[j])
}

pub proof fn lemma_insert_desc_at<A>(s: Seq<A>, x: A, key: spec_fn(A) -> int, pos: int)
    requires
        0 <= pos <= s.len(),
        forall|j: int| 0 <= j < pos ==> key(s[j]) >= key(x),
        pos < s.len() ==> key(s[pos]) < key(x),
    ensures
        insert_desc(s, x, key) == s.insert(pos, x),
    decreases s.len(),
{
    if s.len() == 0 {
        assert(s.insert(pos, x) =~= seq![x]);
    } else if pos == 0 {
        assert(s.insert(pos, x) =~= seq![x] + s);
    } else {
        let t = s.drop_first();
        assert forall|j: int| 0 <= j < pos - 1 implies key(t[j]) >= key(x) by {
            assert(t[j] == s[j + 1]);
        }
        if pos - 1 < t.len() {
            assert(t[pos - 1] == s[pos]);
        }
        lemma_insert_desc_at(t, x, key, pos - 1);
        assert(s.insert(pos, x) =~= seq![s[0]] + t.insert(pos - 1, x));
    }
}

/// Where `insert_desc` places `x`.
pub open spec fn insert_pos<A>(s: Seq<A>, x: A, key: spec_fn(A) -> int) -> int
    decreases s.len(),
{
    if s.len() == 0 {
        0
    } else if key(s[0]) < key(x) {
        0
    } else {
        1 + insert_pos(s.drop_first(), x, key)
    }
}

pub proof fn lemma_insert_pos<A>(s: Seq<A>, x: A, key: spec_fn(A) -> int)
    ensures
        0 <= insert_pos(s, x, key) <= s.len(),
        forall|j: int| 0 <= j < insert_pos(s, x, key) ==> key(s[j]) >= key(x),
        insert_pos(s, x, key) < s.len() ==> key(s[insert_pos(s, x, key)]) < key(x),
        insert_desc(s, x, key) == s.insert(insert_pos(s, x, key), x),
    decreases s.len(),
{
    if s.len() > 0 && key(s[0]) >= key(x) {
        let t = s.drop_first();
        lemma_insert_pos(t, x, key);
        assert forall|j: int| 0 <= j < insert_pos(s, x, key) implies key(s[j])
            >= key(x) by {
            if j > 0 {
                assert(s[j] == t[j - 1]);
            }
        }
        if insert_pos(s, x, key) < s.len() {
            assert(s[insert_pos(s, x, key)] == t[insert_pos(t, x, key)]);
        }
    }
    lemma_insert_desc_at(s, x, key, insert_pos(s, x, key));
}

/// Inserting into an ordered sequence keeps it ordered and adds exactly `x`.
pub proof fn lemma_insert_desc_sorted<A>(s: Seq<A>, x: A, key: spec_fn(A) -> int)
    requires
        sorted_desc(s, key),
    ensures
        sorted_desc(insert_desc(s, x, key), key),
        insert_desc(s, x, key).to_multiset() == s.to_multiset().insert(x),
{
    lemma_insert_pos(s, x, key);
    let p = insert_pos(s, x, key);
    let r = s.insert(p, x);
    assert forall|i: int, j: int| 0 <= i < j < r.len() implies key(r[i])
        >= key(r[j]) by {
        if j < p {
            assert(r[i] == s[i] && r[j] == s[j]);
        } else if j == p {
            assert(r[i] == s[i]);
        } else if i < p {
            assert(r[i] == s[i] && r[j] == s[j - 1]);
            assert(key(s[j - 1]) <= key(s[p]));
        } else if i == p {
            assert(r[j] == s[j - 1]);
            assert(key(s[j - 1]) <= key(s[p]));
        } else {
            assert(r[i] == s[i - 1] && r[j] == s[j - 1]);
        }
    }
    vstd::seq_lib::to_multiset_insert(s, p, x);
}

/// `sort_desc` orders its input and is a permutation of it.
pub proof fn lemma_sort_desc<A>(s: Seq<A>, key: spec_fn(A) -> int)
    ensures
        sorted_desc(sort_desc(s, key), key),
        sort_desc(s, key).to_multiset() == s.to_multiset(),
        sort_desc(s, key).len() == s.len(),
    decreases s.len(),
{
    broadcast use vstd::seq_lib::group_to_multiset_ensures;

    if s.len() == 0 {
        assert(sort_desc(s, key) =~= s);
    } else {
        lemma_sort_desc(s.drop_last(), key);
        lemma_insert_desc_sorted(sort_desc(s.drop_last(), key), s.last(), key);
        vstd::seq_lib::to_multiset_build(s.drop_last(), s.last());
        assert(s.drop_last().push(s.last()) =~= s);
        sort_desc(s, key).to_multiset_ensures();
        s.to_multiset_ensures();
    }
}

/// Orders `items` from the largest key to the smallest, keeping the given
/// order among records with equal keys.
pub fn sort_desc_exec<T: SortKey>(items: Vec<T>) -> (r: Vec<T>)
    ensures
        views(r@) == sort_desc(views(items@), |v: T::V| T::view_key(v)),
{
    let ghost key = |v: T::V| T::view_key(v);
    let ghost orig = views(items@);
    let mut rest = items;
    let mut out: Vec<T> = Vec::new();
    let mut done: usize = 0;
    let total = rest.len();
    proof {
        assert(views(out@) =~= sort_desc(orig.take(0), key));
    }
    while 0 < rest.len()
        invariant
            total == orig.len(),
            done + rest@.len() == total,
            views(rest@) == orig.skip(done as int),
            views(out@) == sort_desc(orig.take(done as int), key),
            key == (|v: T::V| T::view_key(v)),
        decreases rest@.len(),
    {
        let ghost before = rest@;
        let x = rest.remove(0);
        let k = x.sort_key_exec();
        let mut pos: usize = 0;
        while pos < out.len() && out[pos].sort_key_exec() >= k
            invariant
                pos <= out@.len(),
                forall|j: int| 0 <= j < pos ==> key(views(out@)[j]) >= key(x@),
                k == key(x@),
                key == (|v: T::V| T::view_key(v)),
            decreases out@.len() - pos,
        {
            pos = pos + 1;
        }
        let ghost old_out = out@;
        proof {
            lemma_insert_desc_at(views(out@), x@, key, pos as int);
            assert(views(before)[0] == x@);
            assert(orig[done as int] == x@);
            assert(orig.take(done as int + 1).drop_last() =~= orig.take(done as int));
            assert(orig.take(done as int + 1).last() == x@);
        }
        out.insert(pos, x);
        proof {
            assert(views(out@) =~= views(old_out).insert(pos as int, x@));
        }
        done = done + 1;
        proof {
            assert forall|j: int| 0 <= j < rest@.len() implies views(rest@)[j] == orig.skip(
                done as int,
            )[j] by {
                assert(rest@[j] == before[j + 1]);
                assert(views(before)[j + 1] == orig.skip(done as int - 1)[j + 1]);
            }
            assert(views(rest@) =~= orig.skip(done as int));
        }
    }
    proof {
        assert(orig.take(done as int) =~= orig);
    }
    out
}

} // verus!
