//! The order of the ray among its crossings.
//!
//! Crossings are ordered by putting them, one after the other, into the
//! ordered ones before them, each behind the last that does not lie beyond
//! it. Crossings at one place so keep the order in which they were recorded.
use vstd::prelude::*;
use crate::intersect::Intersection;

verus! {

/// Whether every crossing in `s` lies at a number.
pub open spec fn all_numbers(s: Seq<Intersection>) -> bool {
    forall|i: int| 0 <= i < s.len() ==> (#[trigger] s[i]).t.is_number()
}

/// Whether the crossings in `s` come in the order of the ray.
pub open spec fn ascending(s: Seq<Intersection>) -> bool {
    forall|i: int, j: int| 0 <= i <= j < s.len() ==> s[i].t.rank() <= s[j].t.rank()
}

/// Whether no crossing in `s` lies before the one in front of it.
pub open spec fn settled(s: Seq<Intersection>) -> bool {
    forall|i: int| 0 < i < s.len() ==> !(#[trigger] s[i]).t.spec_lt(s[i - 1].t)
}

/// `s` with `h` put in from the end: `h` goes in front of every crossing
/// at the end of `s` that lies beyond it, and behind the first that does
/// not. A place that is not a number lies beyond nothing, and nothing lies
/// beyond it.
pub open spec fn insert_ordered(s: Seq<Intersection>, h: Intersection) -> Seq<Intersection>
    decreases s.len(),
{
    if s.len() > 0 && h.t.spec_lt(s.last().t) {
        insert_ordered(s.drop_last(), h).push(s.last())
    } else {
        s.push(h)
    }
}

/// The crossings of `s` in the order of the ray; crossings at the same place
/// keep the order that they have in `s`.
pub open spec fn ordered(s: Seq<Intersection>) -> Seq<Intersection>
    decreases s.len(),
{
    if s.len() == 0 {
        s
    } else {
        insert_ordered(ordered(s.drop_last()), s.last())
    }
}

proof fn lemma_insert_ordered_members(s: Seq<Intersection>, h: Intersection)
    ensures
        insert_ordered(s, h).len() == s.len() + 1,
        forall|i: int|
            0 <= i < insert_ordered(s, h).len() ==> (#[trigger] insert_ordered(s, h)[i]) == h
                || s.contains(insert_ordered(s, h)[i]),
        insert_ordered(s, h).to_multiset() == s.to_multiset().insert(h),
        insert_ordered(s, h).last() == h || (s.len() > 0 && insert_ordered(s, h).last()
            == s.last() && h.t.spec_lt(s.last().t)),
    decreases s.len(),
{
    broadcast use vstd::seq_lib::to_multiset_build;

    let r = insert_ordered(s, h);
    if s.len() > 0 && h.t.spec_lt(s.last().t) {
        let front = s.drop_last();
        let q = insert_ordered(front, h);
        lemma_insert_ordered_members(front, h);
        assert(s =~= front.push(s.last()));
        assert forall|i: int| 0 <= i < r.len() implies (#[trigger] r[i]) == h || s.contains(
            r[i],
        ) by {
            if i < q.len() {
                if q[i] != h {
                    assert(front.contains(q[i]));
                    let k = choose|k: int| 0 <= k < front.len() && front[k] == q[i];
                    assert(s[k] == r[i]);
                }
            } else {
                assert(s[s.len() - 1] == r[i]);
            }
        }
        assert(r.to_multiset() =~= s.to_multiset().insert(h)) by {
            assert(q.to_multiset() == front.to_multiset().insert(h));
            assert(r.to_multiset() =~= q.to_multiset().insert(s.last()));
            assert(s.to_multiset() =~= front.to_multiset().insert(s.last()));
        }
    } else {
        assert forall|i: int| 0 <= i < r.len() implies (#[trigger] r[i]) == h || s.contains(
            r[i],
        ) by {
            if i < s.len() {
                assert(s[i] == r[i]);
            }
        }
    }
}

proof fn lemma_insert_ordered_settled(s: Seq<Intersection>, h: Intersection)
    requires
        settled(s),
    ensures
        settled(insert_ordered(s, h)),
    decreases s.len(),
{
    let r = insert_ordered(s, h);
    if s.len() > 0 && h.t.spec_lt(s.last().t) {
        let front = s.drop_last();
        let q = insert_ordered(front, h);
        assert forall|i: int| 0 < i < front.len() implies !(#[trigger] front[i]).t.spec_lt(
            front[i - 1].t,
        ) by {
            assert(front[i] == s[i]);
            assert(!s[i].t.spec_lt(s[i - 1].t));
        }
        lemma_insert_ordered_settled(front, h);
        lemma_insert_ordered_members(front, h);
        assert forall|i: int| 0 < i < r.len() implies !(#[trigger] r[i]).t.spec_lt(
            r[i - 1].t,
        ) by {
            if i < q.len() {
                assert(r[i] == q[i]);
                assert(!q[i].t.spec_lt(q[i - 1].t));
            } else {
                assert(r[i] == s.last());
                assert(r[i - 1] == q.last());
                if q.last() != h {
                    assert(q.last() == front.last());
                    assert(front.last() == s[s.len() - 2]);
                    assert(!s[s.len() - 1].t.spec_lt(s[s.len() - 2].t));
                }
            }
        }
    } else {
        assert forall|i: int| 0 < i < r.len() implies !(#[trigger] r[i]).t.spec_lt(
            r[i - 1].t,
        ) by {
            if i < s.len() {
                assert(r[i] == s[i]);
                assert(!s[i].t.spec_lt(s[i - 1].t));
            }
        }
    }
}

/// Ordering leaves no crossing out and adds none.
pub proof fn lemma_ordered_permutes(s: Seq<Intersection>)
    ensures
        ordered(s).to_multiset() == s.to_multiset(),
        ordered(s).len() == s.len(),
        all_numbers(s) ==> all_numbers(ordered(s)),
    decreases s.len(),
{
    broadcast use vstd::seq_lib::to_multiset_build;

    if s.len() > 0 {
        let front = s.drop_last();
        lemma_ordered_permutes(front);
        lemma_insert_ordered_members(ordered(front), s.last());
        assert(s =~= front.push(s.last()));
        if all_numbers(s) {
            let r = ordered(s);
            assert forall|i: int| 0 <= i < front.len() implies (#[trigger] front[i]).t.is_number() by {
                assert(front[i] == s[i]);
            }
            assert forall|i: int| 0 <= i < r.len() implies (#[trigger] r[i]).t.is_number() by {
                if r[i] != s.last() {
                    assert(ordered(front).contains(r[i]));
                }
            }
        }
    }
}

/// After ordering, no crossing lies before the one in front of it.
pub proof fn lemma_ordered_settled(s: Seq<Intersection>)
    ensures
        settled(ordered(s)),
    decreases s.len(),
{
    if s.len() > 0 {
        lemma_ordered_settled(s.drop_last());
        lemma_insert_ordered_settled(ordered(s.drop_last()), s.last());
    }
}

/// Crossings of which none lies before the one in front of it stay as they
/// are when ordered.
pub proof fn lemma_settled_stays(s: Seq<Intersection>)
    requires
        settled(s),
    ensures
        ordered(s) == s,
    decreases s.len(),
{
    if s.len() > 0 {
        let front = s.drop_last();
        assert forall|i: int| 0 < i < front.len() implies !(#[trigger] front[i]).t.spec_lt(
            front[i - 1].t,
        ) by {
            assert(front[i] == s[i]);
            assert(!s[i].t.spec_lt(s[i - 1].t));
        }
        lemma_settled_stays(front);
        if front.len() > 0 {
            assert(front.last() == s[s.len() - 2]);
            assert(!s[s.len() - 1].t.spec_lt(s[s.len() - 2].t));
        }
        assert(front.push(s.last()) =~= s);
    }
}

/// Ordering twice is ordering once.
pub proof fn lemma_ordered_twice(s: Seq<Intersection>)
    ensures
        ordered(ordered(s)) == ordered(s),
{
    lemma_ordered_settled(s);
    lemma_settled_stays(ordered(s));
}

proof fn lemma_settled_ascending(s: Seq<Intersection>, i: int, j: int)
    requires
        settled(s),
        all_numbers(s),
        0 <= i <= j < s.len(),
    ensures
        s[i].t.rank() <= s[j].t.rank(),
    decreases j - i,
{
    if i < j {
        lemma_settled_ascending(s, i, j - 1);
        assert(!s[j].t.spec_lt(s[j - 1].t));
        assert(s[j].t.is_number());
        assert(s[j - 1].t.is_number());
    }
}

/// Ordered crossings whose places are all numbers come in the order of the
/// ray.
pub proof fn lemma_ordered_ascending(s: Seq<Intersection>)
    requires
        all_numbers(s),
    ensures
        ascending(ordered(s)),
        all_numbers(ordered(s)),
{
    lemma_ordered_settled(s);
    lemma_ordered_permutes(s);
    let r = ordered(s);
    assert forall|i: int, j: int| 0 <= i <= j < r.len() implies r[i].t.rank()
        <= r[j].t.rank() by {
        lemma_settled_ascending(r, i, j);
    }
}

/// Crossings that already come in the order of the ray stay as they are.
pub proof fn lemma_ordered_keeps_ascending(s: Seq<Intersection>)
    requires
        all_numbers(s),
        ascending(s),
    ensures
        ordered(s) == s,
{
    assert forall|i: int| 0 < i < s.len() implies !(#[trigger] s[i]).t.spec_lt(s[i - 1].t) by {
        assert(s[i - 1].t.rank() <= s[i].t.rank());
    }
    lemma_settled_stays(s);
}

/// Ordering is stable: the crossings that lie at one place keep, among
/// themselves, the order in which they were recorded.
pub proof fn lemma_ordered_stable(s: Seq<Intersection>, r: int)
    ensures
        ordered(s).filter(|h: Intersection| h.t.rank() == r) == s.filter(
            |h: Intersection| h.t.rank() == r,
        ),
    decreases s.len(),
{
    let same = |h: Intersection| h.t.rank() == r;
    if s.len() > 0 {
        let front = s.drop_last();
        lemma_ordered_stable(front, r);
        lemma_insert_ordered_stable(ordered(front), s.last(), r);
        assert(front.push(s.last()) =~= s);
        front.lemma_filter_push(s.last(), same);
        ordered(front).lemma_filter_push(s.last(), same);
    }
}

proof fn lemma_insert_ordered_stable(s: Seq<Intersection>, h: Intersection, r: int)
    ensures
        insert_ordered(s, h).filter(|x: Intersection| x.t.rank() == r) == s.push(h).filter(
            |x: Intersection| x.t.rank() == r,
        ),
    decreases s.len(),
{
    let same = |x: Intersection| x.t.rank() == r;
    if s.len() > 0 && h.t.spec_lt(s.last().t) {
        let front = s.drop_last();
        lemma_insert_ordered_stable(front, h, r);
        assert(front.push(s.last()) =~= s);
        insert_ordered(front, h).lemma_filter_push(s.last(), same);
        front.lemma_filter_push(h, same);
        front.lemma_filter_push(s.last(), same);
        s.lemma_filter_push(h, same);
        if same(h) {
            assert(!same(s.last()));
        }
    }
}

} // verus!
