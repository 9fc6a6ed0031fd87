//! The crossings of one ray with the surfaces of a scene, and the
//! resolution of the visible one among them.
use vstd::prelude::*;
use crate::media::{
    first_visible, is_first_visible, is_position, lemma_first_visible_found, lemma_none_visible,
    lemma_position_absent, lemma_position_found, media_stack, medium, medium_after,
    medium_before, parameter, record_after, visible,
};
use crate::ordering::{
    insert_ordered, lemma_ordered_settled, lemma_settled_stays, ordered, settled,
};
use crate::scalar::Scalar;
use crate::world::ObjectIndex;

verus! {

/// One crossing of a ray with the surface of an object.
#[derive(Debug, Copy, Clone)]
pub struct Intersection {
    /// The place of the crossing along the ray, in multiples of the ray's
    /// direction.
    pub t: Scalar,
    /// The object whose surface is crossed.
    pub object_index: ObjectIndex,
}

/// The crossings of one ray, kept in order only when asked for.
#[derive(Debug)]
pub struct Intersections {
    hits: Vec<Intersection>,
    sorted: bool,
}

impl View for Intersections {
    type V = Seq<Intersection>;

    /// The crossings in the order in which they are held.
    closed spec fn view(&self) -> Seq<Intersection> {
        self.hits@
    }
}

impl Intersections {
    /// Crossings that are marked as ordered are.
    #[verifier::type_invariant]
    spec fn inv(&self) -> bool {
        self.sorted ==> settled(self.hits@)
    }

    /// Records a crossing at `t` with the surface of `object_index`.
    pub fn add(&mut self, t: Scalar, object_index: ObjectIndex)
        ensures
            final(self)@ == old(self)@.push(Intersection { t, object_index }),
    {
        let mut hits: Vec<Intersection> = Vec::new();
        self.sorted = false;
        core::mem::swap(&mut self.hits, &mut hits);
        hits.push(Intersection { t, object_index });
        core::mem::swap(&mut self.hits, &mut hits);
    }

    /// The number of crossings recorded.
    pub fn len(&self) -> (n: usize)
        ensures
            n == self@.len(),
    {
        self.hits.len()
    }

    /// Forgets every crossing.
    pub fn clear(&mut self)
        ensures
            final(self)@ == Seq::<Intersection>::empty(),
    {
        self.hits = Vec::new();
    }

    /// Puts the crossings in the order of the ray; crossings at the same
    /// place keep the order in which they were recorded.
    pub fn sort(&mut self)
        ensures
            final(self)@ == ordered(old(self)@),
            settled(final(self)@),
    {
        proof {
            use_type_invariant(&*self);
        }
        if !self.sorted {
            let n: usize = self.hits.len();
            let mut out: Vec<Intersection> = Vec::new();
            let mut i: usize = 0;
            while i < n
                invariant
                    i <= n,
                    n == self.hits.len(),
                    !self.sorted,
                    out@ == ordered(self.hits@.take(i as int)),
                decreases n - i,
            {
                let h: Intersection = self.hits[i];
                let mut j: usize = out.len();
                proof {
                    assert(out@.take(j as int) =~= out@);
                    assert(insert_ordered(out@, h) + out@.skip(j as int) =~= insert_ordered(
                        out@,
                        h,
                    ));
                }
                while j > 0 && h.t.lt(out[j - 1].t)
                    invariant
                        j <= out.len(),
                        insert_ordered(out@, h) == insert_ordered(out@.take(j as int), h)
                            + out@.skip(j as int),
                    decreases j,
                {
                    proof {
                        let cur = out@.take(j as int);
                        assert(cur.last() == out@[j - 1]);
                        assert(cur.drop_last() =~= out@.take(j - 1));
                        assert(insert_ordered(cur, h) == insert_ordered(cur.drop_last(), h).push(
                            cur.last(),
                        ));
                        assert(insert_ordered(cur, h) + out@.skip(j as int) =~= insert_ordered(
                            out@.take(j - 1),
                            h,
                        ) + out@.skip(j - 1));
                    }
                    j -= 1;
                }
                proof {
                    let cur = out@.take(j as int);
                    if j > 0 {
                        assert(cur.last() == out@[j - 1]);
                    }
                    assert(insert_ordered(cur, h) == cur.push(h));
                    assert(cur.push(h) + out@.skip(j as int) =~= out@.insert(j as int, h));
                    assert(self.hits@.take(i + 1).drop_last() =~= self.hits@.take(i as int));
                }
                out.insert(j, h);
                i += 1;
            }
            proof {
                assert(self.hits@.take(n as int) =~= self.hits@);
                lemma_ordered_settled(self.hits@);
            }
            self.hits = out;
            self.sorted = true;
        } else {
            proof {
                lemma_settled_stays(self.hits@);
            }
        }
    }

    /// The crossings in the order of the ray.
    pub fn iter(&mut self) -> (v: Vec<Intersection>)
        ensures
            final(self)@ == ordered(old(self)@),
            v@ == final(self)@,
    {
        self.sort();
        self.hits.clone()
    }

    /// The first visible crossing, resolved: the medium before it, its
    /// place along the ray, and the record on top of the stack after it.
    fn resolve(&self) -> (r: (Option<ObjectIndex>, Option<Scalar>, Option<Intersection>))
        ensures
            r.0 == medium_before(self@),
            r.1 == parameter(self@),
            r.2 == record_after(self@),
    {
        let n: usize = self.hits.len();
        let mut containers: Vec<Intersection> = Vec::new();
        let mut i: usize = 0;
        while i < n
            invariant
                i <= n,
                n == self.hits.len(),
                containers@ == media_stack(self.hits@.take(i as int)),
                forall|j: int| 0 <= j < i ==> !visible(#[trigger] self.hits@[j]),
            decreases n - i,
        {
            let h: Intersection = self.hits[i];
            let in_front: bool = Scalar::zero().le(h.t);
            let from: Option<ObjectIndex> = last_object(&containers);
            match find_object(&containers, h.object_index) {
                Some(p) => {
                    proof {
                        lemma_position_found(containers@, h.object_index, p as int);
                    }
                    containers.remove(p);
                },
                None => {
                    proof {
                        lemma_position_absent(containers@, h.object_index);
                    }
                    containers.push(h);
                },
            }
            proof {
                assert(self.hits@.take(i + 1).drop_last() =~= self.hits@.take(i as int));
                assert(self.hits@.take(i + 1).last() == h);
            }
            if in_front {
                proof {
                    assert(is_first_visible(self.hits@, i as int));
                    lemma_first_visible_found(self.hits@, i as int);
                }
                let to: Option<Intersection> = if containers.len() == 0 {
                    None
                } else {
                    Some(containers[containers.len() - 1])
                };
                return (from, Some(h.t), to);
            }
            i += 1;
        }
        proof {
            lemma_none_visible(self.hits@);
        }
        (None, None, None)
    }

    /// Resolves the first crossing that lies at or in front of the ray's
    /// origin: returns the medium in which the ray travels before it, and
    /// the record of entry of the medium in which it travels after it. Empty
    /// space, and a ray that meets nothing, give none.
    pub fn hit(&mut self) -> (r: (Option<ObjectIndex>, Option<Intersection>))
        ensures
            final(self)@ == ordered(old(self)@),
            r.0 == medium_before(final(self)@),
            r.1 == record_after(final(self)@),
    {
        self.sort();
        let r = self.resolve();
        (r.0, r.2)
    }

    /// Resolves the first crossing that lies at or in front of the ray's
    /// origin: returns the medium before it, its place along the ray, and
    /// the medium after it. A ray that meets nothing gives no place.
    pub fn hit_media(&mut self) -> (r: (Option<ObjectIndex>, Option<Scalar>, Option<ObjectIndex>))
        ensures
            final(self)@ == ordered(old(self)@),
            r.0 == medium_before(final(self)@),
            r.1 == parameter(final(self)@),
            r.2 == medium_after(final(self)@),
    {
        self.sort();
        let r = self.resolve();
        let to: Option<ObjectIndex> = match r.2 {
            Some(h) => Some(h.object_index),
            None => None,
        };
        (r.0, r.1, to)
    }
}

impl Default for Intersections {
    /// No crossings.
    fn default() -> (r: Self)
        ensures
            r@ == Seq::<Intersection>::empty(),
    {
        Intersections { hits: Vec::new(), sorted: true }
    }
}

/// The object of the record on top of the stack.
fn last_object(stack: &Vec<Intersection>) -> (r: Option<ObjectIndex>)
    ensures
        r == medium(stack@),
{
    if stack.len() == 0 {
        None
    } else {
        Some(stack[stack.len() - 1].object_index)
    }
}

/// The first place on the stack that the object `o` holds.
fn find_object(stack: &Vec<Intersection>, o: ObjectIndex) -> (r: Option<usize>)
    ensures
        match r {
            Some(p) => is_position(stack@, o, p as int),
            None => forall|j: int| 0 <= j < stack@.len() ==> (#[trigger] stack@[j]).object_index != o,
        },
{
    let mut i: usize = 0;
    while i < stack.len()
        invariant
            i <= stack.len(),
            forall|j: int| 0 <= j < i ==> (#[trigger] stack@[j]).object_index != o,
        decreases stack.len() - i,
    {
        if stack[i].object_index == o {
            return Some(i);
        }
        i += 1;
    }
    None
}

} // verus!
