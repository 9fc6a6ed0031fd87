//! The media that a ray travels in.
//!
//! Walking the crossings in the order of the ray, an object is entered at
//! its first crossing, left at its second, entered again at its third: the
//! objects entered and not yet left, in the order in which they were
//! entered, form a stack whose top is the medium that the ray travels in.
//! The first crossing at or in front of the origin of the ray is the one
//! that the ray sees; the stack just before it and just after it gives the
//! media on its two sides.
use vstd::prelude::*;
use crate::intersect::Intersection;
use crate::ordering::ascending;
use crate::scalar::Scalar;
use crate::world::ObjectIndex;

verus! {

/// Whether a crossing lies at or in front of the ray's origin.
pub open spec fn visible(h: Intersection) -> bool {
    h.t.is_number() && h.t.rank() >= 0
}

/// Whether `i` is the first place in `s` that satisfies `visible`.
pub open spec fn is_first_visible(s: Seq<Intersection>, i: int) -> bool {
    &&& 0 <= i < s.len()
    &&& visible(s[i])
    &&& forall|j: int| 0 <= j < i ==> !visible(#[trigger] s[j])
}

/// Whether some crossing in `s` is visible.
pub open spec fn has_visible(s: Seq<Intersection>) -> bool {
    exists|i: int| is_first_visible(s, i)
}

/// The place in `s` of the first visible crossing.
pub open spec fn first_visible(s: Seq<Intersection>) -> int {
    choose|i: int| is_first_visible(s, i)
}

/// Whether `i` is the first place in `stack` held by the object `o`.
pub open spec fn is_position(stack: Seq<Intersection>, o: ObjectIndex, i: int) -> bool {
    &&& 0 <= i < stack.len()
    &&& stack[i].object_index == o
    &&& forall|j: int| 0 <= j < i ==> (#[trigger] stack[j]).object_index != o
}

/// Whether the object `o` is on the stack.
pub open spec fn holds(stack: Seq<Intersection>, o: ObjectIndex) -> bool {
    exists|i: int| is_position(stack, o, i)
}

/// The first place in `stack` held by the object `o`.
pub open spec fn position(stack: Seq<Intersection>, o: ObjectIndex) -> int {
    choose|i: int| is_position(stack, o, i)
}

/// The stack after the crossing `h`: the object of `h` leaves the stack if
/// it is on it, and else enters on top, with `h` as the record of its entry.
pub open spec fn toggle(stack: Seq<Intersection>, h: Intersection) -> Seq<Intersection> {
    if holds(stack, h.object_index) {
        stack.remove(position(stack, h.object_index))
    } else {
        stack.push(h)
    }
}

/// The objects entered and not left after the crossings `s`, each with the
/// record of its entry, the one entered last on top.
pub open spec fn media_stack(s: Seq<Intersection>) -> Seq<Intersection>
    decreases s.len(),
{
    if s.len() == 0 {
        s
    } else {
        toggle(media_stack(s.drop_last()), s.last())
    }
}

/// The record on top of the stack, if the stack holds any.
pub open spec fn top(stack: Seq<Intersection>) -> Option<Intersection> {
    if stack.len() == 0 {
        None
    } else {
        Some(stack.last())
    }
}

/// The medium on top of the stack; none stands for empty space.
pub open spec fn medium(stack: Seq<Intersection>) -> Option<ObjectIndex> {
    if stack.len() == 0 {
        None
    } else {
        Some(stack.last().object_index)
    }
}

/// The medium in which the ray travels just before its first visible
/// crossing; none where it travels in empty space or meets nothing.
pub open spec fn medium_before(s: Seq<Intersection>) -> Option<ObjectIndex> {
    if has_visible(s) {
        medium(media_stack(s.take(first_visible(s))))
    } else {
        None
    }
}

/// The record of entry of the medium in which the ray travels just after
/// its first visible crossing; none where that is empty space or the ray
/// meets nothing.
pub open spec fn record_after(s: Seq<Intersection>) -> Option<Intersection> {
    if has_visible(s) {
        top(media_stack(s.take(first_visible(s) + 1)))
    } else {
        None
    }
}

/// The medium in which the ray travels just after its first visible
/// crossing.
pub open spec fn medium_after(s: Seq<Intersection>) -> Option<ObjectIndex> {
    if has_visible(s) {
        medium(media_stack(s.take(first_visible(s) + 1)))
    } else {
        None
    }
}

/// The place along the ray of its first visible crossing.
pub open spec fn parameter(s: Seq<Intersection>) -> Option<Scalar> {
    if has_visible(s) {
        Some(s[first_visible(s)].t)
    } else {
        None
    }
}

/// How often the object `o` is crossed in `s`.
pub open spec fn crossings_of(s: Seq<Intersection>, o: ObjectIndex) -> nat
    decreases s.len(),
{
    if s.len() == 0 {
        0
    } else if s.last().object_index == o {
        crossings_of(s.drop_last(), o) + 1
    } else {
        crossings_of(s.drop_last(), o)
    }
}

/// Whether no object is on the stack twice.
pub open spec fn distinct(stack: Seq<Intersection>) -> bool {
    forall|i: int, j: int|
        0 <= i < j < stack.len() ==> (#[trigger] stack[i]).object_index != (
        #[trigger] stack[j]).object_index
}

/// Whether some record on the stack belongs to the object `o`.
pub open spec fn on_stack(stack: Seq<Intersection>, o: ObjectIndex) -> bool {
    exists|i: int| 0 <= i < stack.len() && (#[trigger] stack[i]).object_index == o
}

pub(crate) proof fn lemma_position_found(stack: Seq<Intersection>, o: ObjectIndex, i: int)
    requires
        is_position(stack, o, i),
    ensures
        holds(stack, o),
        position(stack, o) == i,
{
    let p = position(stack, o);
    assert(is_position(stack, o, p));
    if p < i {
        assert(stack[p].object_index != o);
    }
    if i < p {
        assert(stack[i].object_index != o);
    }
}

pub(crate) proof fn lemma_position_absent(stack: Seq<Intersection>, o: ObjectIndex)
    requires
        forall|j: int| 0 <= j < stack.len() ==> (#[trigger] stack[j]).object_index != o,
    ensures
        !holds(stack, o),
{
    if holds(stack, o) {
        let p = position(stack, o);
        assert(is_position(stack, o, p));
        assert(stack[p].object_index != o);
    }
}

pub(crate) proof fn lemma_first_visible_found(s: Seq<Intersection>, i: int)
    requires
        is_first_visible(s, i),
    ensures
        has_visible(s),
        first_visible(s) == i,
{
    let p = first_visible(s);
    assert(is_first_visible(s, p));
    if p < i {
        assert(!visible(s[p]));
    }
    if i < p {
        assert(!visible(s[i]));
    }
}

pub(crate) proof fn lemma_none_visible(s: Seq<Intersection>)
    requires
        forall|j: int| 0 <= j < s.len() ==> !visible(#[trigger] s[j]),
    ensures
        !has_visible(s),
{
    if has_visible(s) {
        let p = first_visible(s);
        assert(is_first_visible(s, p));
        assert(!visible(s[p]));
    }
}

/// A crossing in front of the ray's origin makes some crossing the first
/// visible one, at or before its place.
pub proof fn lemma_visible_has_first(s: Seq<Intersection>, j: int)
    requires
        0 <= j < s.len(),
        visible(s[j]),
    ensures
        has_visible(s),
        0 <= first_visible(s) <= j,
        is_first_visible(s, first_visible(s)),
    decreases j,
{
    if exists|k: int| 0 <= k < j && visible(s[k]) {
        let k = choose|k: int| 0 <= k < j && visible(s[k]);
        lemma_visible_has_first(s, k);
    } else {
        assert(is_first_visible(s, j));
        lemma_first_visible_found(s, j);
    }
}

/// Among crossings in the order of the ray, the first visible one is the
/// nearest: no crossing in front of the origin lies before it.
pub proof fn lemma_first_visible_is_nearest(s: Seq<Intersection>, j: int)
    requires
        ascending(s),
        0 <= j < s.len(),
        visible(s[j]),
    ensures
        has_visible(s),
        parameter(s) == Some(s[first_visible(s)].t),
        visible(s[first_visible(s)]),
        s[first_visible(s)].t.rank() <= s[j].t.rank(),
{
    lemma_visible_has_first(s, j);
}

/// Where no crossing lies in front of the origin, the ray meets nothing:
/// there is no parameter and no medium on either side.
pub proof fn lemma_nothing_visible(s: Seq<Intersection>)
    requires
        forall|j: int| 0 <= j < s.len() ==> !visible(#[trigger] s[j]),
    ensures
        parameter(s) == None::<Scalar>,
        medium_before(s) == None::<ObjectIndex>,
        medium_after(s) == None::<ObjectIndex>,
        record_after(s) == None::<Intersection>,
{
    lemma_none_visible(s);
}

proof fn lemma_on_stack_holds(stack: Seq<Intersection>, o: ObjectIndex)
    requires
        distinct(stack),
    ensures
        holds(stack, o) == on_stack(stack, o),
{
    if on_stack(stack, o) {
        let i = choose|i: int| 0 <= i < stack.len() && (#[trigger] stack[i]).object_index == o;
        assert(is_position(stack, o, i));
    }
    if holds(stack, o) {
        let p = position(stack, o);
        assert(is_position(stack, o, p));
    }
}

proof fn lemma_toggle(stack: Seq<Intersection>, h: Intersection, o: ObjectIndex)
    requires
        distinct(stack),
    ensures
        distinct(toggle(stack, h)),
        o != h.object_index ==> on_stack(toggle(stack, h), o) == on_stack(stack, o),
        on_stack(toggle(stack, h), h.object_index) == !on_stack(stack, h.object_index),
{
    let next = toggle(stack, h);
    lemma_on_stack_holds(stack, h.object_index);
    if holds(stack, h.object_index) {
        let p = position(stack, h.object_index);
        assert(is_position(stack, h.object_index, p));
        assert forall|i: int, j: int| 0 <= i < j < next.len() implies (
        #[trigger] next[i]).object_index != (#[trigger] next[j]).object_index by {
            let a = if i < p { i } else { i + 1 };
            let b = if j < p { j } else { j + 1 };
            assert(next[i] == stack[a]);
            assert(next[j] == stack[b]);
        }
        if on_stack(next, h.object_index) {
            let i = choose|i: int|
                0 <= i < next.len() && (#[trigger] next[i]).object_index == h.object_index;
            let a = if i < p { i } else { i + 1 };
            assert(next[i] == stack[a]);
            if a < p {
                assert(stack[a].object_index != stack[p].object_index);
            } else {
                assert(stack[p].object_index != stack[a].object_index);
            }
        }
        if o != h.object_index {
            if on_stack(stack, o) {
                let i = choose|i: int|
                    0 <= i < stack.len() && (#[trigger] stack[i]).object_index == o;
                let a = if i < p { i } else { i - 1 };
                assert(next[a] == stack[i]);
            }
            if on_stack(next, o) {
                let i = choose|i: int|
                    0 <= i < next.len() && (#[trigger] next[i]).object_index == o;
                let a = if i < p { i } else { i + 1 };
                assert(next[i] == stack[a]);
            }
        }
    } else {
        assert forall|i: int, j: int| 0 <= i < j < next.len() implies (
        #[trigger] next[i]).object_index != (#[trigger] next[j]).object_index by {
            if j == stack.len() {
                assert(next[i] == stack[i]);
            } else {
                assert(next[i] == stack[i]);
                assert(next[j] == stack[j]);
            }
        }
        assert(next[stack.len() as int].object_index == h.object_index);
        if o != h.object_index {
            if on_stack(stack, o) {
                let i = choose|i: int|
                    0 <= i < stack.len() && (#[trigger] stack[i]).object_index == o;
                assert(next[i] == stack[i]);
            }
            if on_stack(next, o) {
                let i = choose|i: int|
                    0 <= i < next.len() && (#[trigger] next[i]).object_index == o;
                assert(next[i] == stack[i]);
            }
        }
    }
}

/// The stack holds an object exactly when the ray has crossed its surface
/// an odd number of times, and holds no object twice.
pub proof fn lemma_stack_parity(s: Seq<Intersection>, o: ObjectIndex)
    ensures
        distinct(media_stack(s)),
        on_stack(media_stack(s), o) == (crossings_of(s, o) % 2 == 1),
    decreases s.len(),
{
    if s.len() > 0 {
        let front = s.drop_last();
        lemma_stack_parity(front, o);
        lemma_stack_parity(front, s.last().object_index);
        lemma_toggle(media_stack(front), s.last(), o);
    }
}

/// Whether the crossing at place `k` is the last one in `s` with the
/// surface of its object.
pub open spec fn is_last_crossing(s: Seq<Intersection>, k: int) -> bool {
    &&& 0 <= k < s.len()
    &&& forall|m: int| k < m < s.len() ==> (#[trigger] s[m]).object_index != s[k].object_index
}

/// Whether the record at place `i` of the stack after the crossings `s` is
/// the crossing at place `k` of `s`, the last with the surface of its
/// object.
pub open spec fn is_entry(s: Seq<Intersection>, i: int, k: int) -> bool {
    &&& 0 <= i < media_stack(s).len()
    &&& is_last_crossing(s, k)
    &&& s[k] == media_stack(s)[i]
}

proof fn lemma_entry_kept(front: Seq<Intersection>, h: Intersection, a: int, i: int, k: int)
    requires
        is_entry(front, a, k),
        0 <= i < media_stack(front.push(h)).len(),
        media_stack(front.push(h))[i] == media_stack(front)[a],
        media_stack(front)[a].object_index != h.object_index,
    ensures
        is_entry(front.push(h), i, k),
{
    let s = front.push(h);
    assert(s[k] == front[k]);
    assert forall|m: int| k < m < s.len() implies (#[trigger] s[m]).object_index
        != s[k].object_index by {
        if m < front.len() {
            assert(front[m] == s[m]);
        }
    }
}

/// Every record on the stack is a crossing of the ray, and no later
/// crossing belongs to the same object: it is the record of the object's
/// last entry.
pub proof fn lemma_stack_records(s: Seq<Intersection>, i: int)
    requires
        0 <= i < media_stack(s).len(),
    ensures
        exists|k: int| is_entry(s, i, k),
    decreases s.len(),
{
    if s.len() > 0 {
        let front = s.drop_last();
        let stack = media_stack(front);
        let h = s.last();
        let next = media_stack(s);
        assert(front.push(h) =~= s);
        lemma_stack_parity(front, h.object_index);
        lemma_on_stack_holds(stack, h.object_index);
        if holds(stack, h.object_index) {
            let p = position(stack, h.object_index);
            assert(is_position(stack, h.object_index, p));
            let a = if i < p {
                i
            } else {
                i + 1
            };
            assert(next[i] == stack[a]);
            if a < p {
                assert(stack[a].object_index != stack[p].object_index);
            } else {
                assert(stack[p].object_index != stack[a].object_index);
            }
            lemma_stack_records(front, a);
            let k = choose|k: int| is_entry(front, a, k);
            lemma_entry_kept(front, h, a, i, k);
        } else {
            if i < stack.len() {
                assert(next[i] == stack[i]);
                assert(on_stack(stack, stack[i].object_index));
                lemma_stack_records(front, i);
                let k = choose|k: int| is_entry(front, i, k);
                lemma_entry_kept(front, h, i, i, k);
            } else {
                assert(is_entry(s, i, s.len() - 1));
            }
        }
    }
}

/// The records on the stack lie in the order of their crossings: an object
/// that is deeper in the stack was entered earlier.
pub proof fn lemma_stack_order(s: Seq<Intersection>, i: int, j: int)
    requires
        0 <= i < j < media_stack(s).len(),
    ensures
        exists|ki: int, kj: int| ki < kj && is_entry(s, i, ki) && is_entry(s, j, kj),
    decreases s.len(),
{
    if s.len() > 0 {
        let front = s.drop_last();
        let stack = media_stack(front);
        let h = s.last();
        let next = media_stack(s);
        assert(front.push(h) =~= s);
        lemma_stack_parity(front, h.object_index);
        lemma_on_stack_holds(stack, h.object_index);
        if holds(stack, h.object_index) {
            let p = position(stack, h.object_index);
            assert(is_position(stack, h.object_index, p));
            let a = if i < p {
                i
            } else {
                i + 1
            };
            let b = if j < p {
                j
            } else {
                j + 1
            };
            assert(next[i] == stack[a]);
            assert(next[j] == stack[b]);
            if a < p {
                assert(stack[a].object_index != stack[p].object_index);
            } else {
                assert(stack[p].object_index != stack[a].object_index);
            }
            if b < p {
                assert(stack[b].object_index != stack[p].object_index);
            } else {
                assert(stack[p].object_index != stack[b].object_index);
            }
            lemma_stack_order(front, a, b);
            let (ka, kb) = choose|ka: int, kb: int|
                ka < kb && is_entry(front, a, ka) && is_entry(front, b, kb);
            lemma_entry_kept(front, h, a, i, ka);
            lemma_entry_kept(front, h, b, j, kb);
        } else {
            assert(next[i] == stack[i]);
            assert(on_stack(stack, stack[i].object_index));
            if j < stack.len() {
                assert(next[j] == stack[j]);
                assert(on_stack(stack, stack[j].object_index));
                lemma_stack_order(front, i, j);
                let (ka, kb) = choose|ka: int, kb: int|
                    ka < kb && is_entry(front, i, ka) && is_entry(front, j, kb);
                lemma_entry_kept(front, h, i, i, ka);
                lemma_entry_kept(front, h, j, j, kb);
            } else {
                lemma_stack_records(front, i);
                let k = choose|k: int| is_entry(front, i, k);
                lemma_entry_kept(front, h, i, i, k);
                assert(is_entry(s, j, s.len() - 1));
            }
        }
    }
}

/// A ray that meets a surface travels in some object on one side of it at
/// least: before the crossing, after it, or both.
pub proof fn lemma_hit_has_medium(s: Seq<Intersection>)
    requires
        has_visible(s),
    ensures
        medium_before(s).is_some() || medium_after(s).is_some(),
        medium_after(s) == match record_after(s) {
            Some(h) => Some(h.object_index),
            None => None,
        },
{
    let k = first_visible(s);
    assert(is_first_visible(s, k));
    let stack = media_stack(s.take(k));
    assert(s.take(k + 1).drop_last() =~= s.take(k));
    assert(s.take(k + 1).last() == s[k]);
    assert(media_stack(s.take(k + 1)) == toggle(stack, s[k]));
    if holds(stack, s[k].object_index) {
        let p = position(stack, s[k].object_index);
        assert(is_position(stack, s[k].object_index, p));
    }
}


} // verus!
