//! A verified stable sort of key/value pairs by their integer key.
//!
//! Reply payloads index their entries with an explicit `index` field; the
//! extraction paths sort entries by that key before reading them out. The
//! sort is pinned to a spec-level insertion sort, whose result is exactly
//! the stable order: sorted, with entries of equal keys kept in arrival
//! order.
use vstd::prelude::*;

verus! {

/// The pairs are ordered by key, non-decreasing.
pub open spec fn sorted_by_key<T>(s: Seq<(i64, T)>) -> bool {
    forall|a: int, b: int| 0 <= a < b < s.len() ==> s[a].0 <= s[b].0
}

/// Insert one pair into a sorted run, behind every pair of equal key.
pub open spec fn insert_sorted<T>(x: (i64, T), s: Seq<(i64, T)>) -> Seq<(i64, T)>
    decreases s.len(),
{
    if s.len() == 0 {
        seq![x]
    } else if x.0 < s[0].0 {
        seq![x] + s
    } else {
        seq![s[0]] + insert_sorted(x, s.skip(1))
    }
}

/// The stable sort of the pairs by key: each pair inserted, in arrival
/// order, behind the pairs of equal key.
pub open spec fn sort_by_key<T>(s: Seq<(i64, T)>) -> Seq<(i64, T)>
    decreases s.len(),
{
    if s.len() == 0 {
        s
    } else {
        insert_sorted(s.last(), sort_by_key(s.drop_last()))
    }
}

proof fn lemma_insert_sorted_props<T>(x: (i64, T), s: Seq<(i64, T)>)
    requires
        sorted_by_key(s),
    ensures
        sorted_by_key(insert_sorted(x, s)),
        insert_sorted(x, s).len() == s.len() + 1,
        forall|j: int|
            0 <= j < insert_sorted(x, s).len() ==> insert_sorted(x, s)[j] == x || (exists|k: int|
                0 <= k < s.len() && insert_sorted(x, s)[j] == s[k]),
    decreases s.len(),
{
    if s.len() == 0 {
    } else if x.0 < s[0].0 {
        let r = seq![x] + s;
        assert forall|j: int| 0 <= j < r.len() implies r[j] == x || (exists|k: int|
            0 <= k < s.len() && r[j] == s[k]) by {
            if j > 0 {
                assert(r[j] == s[j - 1]);
            }
        }
    } else {
        let t = s.skip(1);
        assert forall|a: int, b: int| 0 <= a < b < t.len() implies t[a].0 <= t[b].0 by {
            assert(t[a] == s[a + 1]);
            assert(t[b] == s[b + 1]);
        }
        lemma_insert_sorted_props(x, t);
        let w = insert_sorted(x, t);
        let r = seq![s[0]] + w;
        assert forall|j: int| 0 <= j < r.len() implies r[j] == x || (exists|k: int|
            0 <= k < s.len() && r[j] == s[k]) by {
            if j == 0 {
                assert(r[0] == s[0]);
            } else {
                assert(r[j] == w[j - 1]);
                if w[j - 1] != x {
                    let k = choose|k: int| 0 <= k < t.len() && w[j - 1] == t[k];
                    assert(t[k] == s[k + 1]);
                }
            }
        }
        assert forall|a: int, b: int| 0 <= a < b < r.len() implies r[a].0 <= r[b].0 by {
            if a == 0 {
                assert(r[b] == w[b - 1]);
                if w[b - 1] == x {
                } else {
                    let k = choose|k: int| 0 <= k < t.len() && w[b - 1] == t[k];
                    assert(t[k] == s[k + 1]);
                }
            } else {
                assert(r[a] == w[a - 1]);
                assert(r[b] == w[b - 1]);
            }
        }
    }
}

/// The stable sort keeps the length, and every pair of the result is a
/// pair of the input.
pub proof fn lemma_sort_elements<T>(s: Seq<(i64, T)>)
    ensures
        sort_by_key(s).len() == s.len(),
        sorted_by_key(sort_by_key(s)),
        forall|j: int|
            0 <= j < s.len() ==> exists|k: int|
                0 <= k < s.len() && #[trigger] sort_by_key(s)[j] == s[k],
    decreases s.len(),
{
    if s.len() == 0 {
    } else {
        let init = s.drop_last();
        lemma_sort_elements(init);
        lemma_insert_sorted_props(s.last(), sort_by_key(init));
        let r = sort_by_key(s);
        assert forall|j: int| 0 <= j < s.len() implies exists|k: int|
            0 <= k < s.len() && #[trigger] r[j] == s[k] by {
            if r[j] == s.last() {
                assert(r[j] == s[s.len() - 1]);
            } else {
                let k1 = choose|k1: int|
                    0 <= k1 < sort_by_key(init).len() && r[j] == sort_by_key(init)[k1];
                let k2 = choose|k2: int| 0 <= k2 < init.len() && sort_by_key(init)[k1] == init[k2];
                assert(init[k2] == s[k2]);
            }
        }
    }
}

proof fn lemma_insert_sorted_at<T>(x: (i64, T), s: Seq<(i64, T)>, j: int)
    requires
        0 <= j <= s.len(),
        forall|k: int| 0 <= k < j ==> s[k].0 <= x.0,
        j < s.len() ==> x.0 < s[j].0,
    ensures
        insert_sorted(x, s) == s.insert(j, x),
    decreases j,
{
    if j == 0 {
        if s.len() == 0 {
            assert(insert_sorted(x, s) =~= s.insert(0, x));
        } else {
            assert(x.0 < s[0].0);
            assert(seq![x] + s =~= s.insert(0, x));
        }
    } else {
        assert(s[0].0 <= x.0);
        let t = s.skip(1);
        assert forall|k: int| 0 <= k < j - 1 implies t[k].0 <= x.0 by {
            assert(t[k] == s[k + 1]);
        }
        assert(j - 1 < t.len() ==> x.0 < t[j - 1].0) by {
            if j - 1 < t.len() {
                assert(t[j - 1] == s[j]);
            }
        }
        lemma_insert_sorted_at(x, t, j - 1);
        assert(seq![s[0]] + t.insert(j - 1, x) =~= s.insert(j, x));
    }
}

/// Insert one pair into a sorted vector, behind every pair of equal key.
fn insert_pair<T>(out: &mut Vec<(i64, T)>, x: (i64, T))
    requires
        sorted_by_key(old(out)@),
    ensures
        final(out)@ == insert_sorted(x, old(out)@),
        sorted_by_key(final(out)@),
{
    proof {
        lemma_insert_sorted_props(x, out@);
    }
    let key = x.0;
    let n = out.len();
    let mut j: usize = 0;
    while j < n && out[j].0 <= key
        invariant
            n == out@.len(),
            0 <= j <= n,
            forall|k: int| 0 <= k < j ==> out@[k].0 <= key,
        decreases n - j,
    {
        j = j + 1;
    }
    proof {
        lemma_insert_sorted_at(x, out@, j as int);
    }
    out.insert(j, x);
}

/// Sort the pairs by key, keeping pairs of equal key in arrival order.
pub fn sort_pairs<T>(input: Vec<(i64, T)>) -> (r: Vec<(i64, T)>)
    ensures
        r@ == sort_by_key(input@),
        sorted_by_key(r@),
{
    let ghost whole = input@;
    let mut work = input;
    let mut out: Vec<(i64, T)> = Vec::new();
    proof {
        assert(work@ =~= whole.skip(0));
        assert(whole.take(0) =~= Seq::<(i64, T)>::empty());
    }
    while work.len() > 0
        invariant
            work@ == whole.skip(whole.len() - work@.len()),
            work@.len() <= whole.len(),
            out@ == sort_by_key(whole.take(whole.len() - work@.len())),
            sorted_by_key(out@),
        decreases work.len(),
    {
        let ghost i: int = whole.len() - work@.len();
        let x = work.remove(0);
        proof {
            assert(x == whole[i]);
            assert(work@ =~= whole.skip(i + 1));
            let taken = whole.take(i + 1);
            assert(taken.last() == whole[i]);
            assert(taken.drop_last() =~= whole.take(i));
        }
        insert_pair(&mut out, x);
        proof {
            assert(out@ == sort_by_key(whole.take(i + 1)));
        }
    }
    proof {
        assert(whole.take(whole.len() as int) =~= whole);
    }
    out
}

} // verus!
