//! Stable insertion order: the sequence that a stable sort by a total
//! preorder produces, and its laws.

use vstd::prelude::*;

verus! {

/// `le` is total and transitive.
pub open spec fn is_total_preorder<T>(le: spec_fn(T, T) -> bool) -> bool {
    &&& forall|a: T, b: T| #[trigger] le(a, b) || le(b, a)
    &&& forall|a: T, b: T, c: T| #[trigger] le(a, b) && #[trigger] le(b, c) ==> le(a, c)
}

/// Each element of `s` is `le` every later one.
pub open spec fn sorted_by<T>(s: Seq<T>, le: spec_fn(T, T) -> bool) -> bool {
    forall|i: int, j: int| 0 <= i < j < s.len() ==> le(#[trigger] s[i], #[trigger] s[j])
}

/// Where a stable insertion places `x` in `s`: after the last element that
/// is `le` it, scanning from the back.
pub open spec fn insert_pos<T>(s: Seq<T>, x: T, le: spec_fn(T, T) -> bool) -> int
    decreases s.len(),
{
    if s.len() == 0 {
        0
    } else if le(s.last(), x) {
        s.len() as int
    } else {
        insert_pos(s.drop_last(), x, le)
    }
}

/// `s` ordered by `le` by a stable insertion sort.
pub open spec fn sort_seq<T>(s: Seq<T>, le: spec_fn(T, T) -> bool) -> Seq<T>
    decreases s.len(),
{
    if s.len() == 0 {
        s
    } else {
        let r = sort_seq(s.drop_last(), le);
        r.insert(insert_pos(r, s.last(), le), s.last())
    }
}

proof fn lemma_insert_pos<T>(s: Seq<T>, x: T, le: spec_fn(T, T) -> bool)
    ensures
        0 <= insert_pos(s, x, le) <= s.len(),
        insert_pos(s, x, le) > 0 ==> le(s[insert_pos(s, x, le) - 1], x),
        forall|k: int| insert_pos(s, x, le) <= k < s.len() ==> !le(#[trigger] s[k], x),
    decreases s.len(),
{
    if s.len() > 0 && !le(s.last(), x) {
        lemma_insert_pos(s.drop_last(), x, le);
        let p = insert_pos(s, x, le);
        assert forall|k: int| p <= k < s.len() implies !le(#[trigger] s[k], x) by {
            if k < s.len() - 1 {
                assert(s[k] == s.drop_last()[k]);
            }
        }
    }
}

/// A stable insertion sort yields a sorted sequence.
pub proof fn lemma_sort_sorted<T>(s: Seq<T>, le: spec_fn(T, T) -> bool)
    requires
        is_total_preorder(le),
    ensures
        sorted_by(sort_seq(s, le), le),
        sort_seq(s, le).len() == s.len(),
    decreases s.len(),
{
    if s.len() > 0 {
        let r = sort_seq(s.drop_last(), le);
        let x = s.last();
        lemma_sort_sorted(s.drop_last(), le);
        lemma_insert_pos(r, x, le);
        let p = insert_pos(r, x, le);
        let t = r.insert(p, x);
        assert forall|i: int, j: int| 0 <= i < j < t.len() implies le(
            #[trigger] t[i],
            #[trigger] t[j],
        ) by {
            if j < p {
                assert(t[i] == r[i] && t[j] == r[j]);
            } else if j == p {
                assert(t[j] == x && t[i] == r[i]);
                if i < p - 1 {
                    assert(le(r[i], r[p - 1]));
                }
            } else if i < p {
                assert(t[i] == r[i] && t[j] == r[j - 1]);
                assert(!le(r[j - 1], x));
                assert(le(x, r[j - 1]));
                if i < p - 1 {
                    assert(le(r[i], r[p - 1]));
                }
                assert(le(r[i], x));
            } else if i == p {
                assert(t[i] == x && t[j] == r[j - 1]);
                assert(!le(r[j - 1], x));
            } else {
                assert(t[i] == r[i - 1] && t[j] == r[j - 1]);
            }
        }
    }
}

/// A stable insertion sort leaves a sorted sequence as it is.
pub proof fn lemma_sort_of_sorted<T>(s: Seq<T>, le: spec_fn(T, T) -> bool)
    requires
        sorted_by(s, le),
    ensures
        sort_seq(s, le) == s,
    decreases s.len(),
{
    if s.len() > 0 {
        let d = s.drop_last();
        assert(sorted_by(d, le)) by {
            assert forall|i: int, j: int| 0 <= i < j < d.len() implies le(
                #[trigger] d[i],
                #[trigger] d[j],
            ) by {
                assert(d[i] == s[i] && d[j] == s[j]);
            }
        }
        lemma_sort_of_sorted(d, le);
        if d.len() > 0 {
            assert(le(s[d.len() - 1], s[s.len() - 1]));
            assert(d.last() == s[d.len() - 1]);
        }
        assert(insert_pos(d, s.last(), le) == d.len());
        assert(d.insert(d.len() as int, s.last()) == s);
    }
}

/// Sorting twice gives what sorting once gives.
pub proof fn lemma_sort_idempotent<T>(s: Seq<T>, le: spec_fn(T, T) -> bool)
    requires
        is_total_preorder(le),
    ensures
        sort_seq(sort_seq(s, le), le) == sort_seq(s, le),
{
    lemma_sort_sorted(s, le);
    lemma_sort_of_sorted(sort_seq(s, le), le);
}

} // verus!
