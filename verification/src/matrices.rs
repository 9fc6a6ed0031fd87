//! Square matrices that lead from one coordinate frame to another.
use vstd::prelude::*;
use core::marker::PhantomData;
use crate::scalar::Scalar;
use crate::space::Space;

verus! {

/// An N x N matrix, as an array of rows, that takes points and vectors of
/// the frame `S1` to the frame `S2`.
#[derive(Debug, PartialEq)]
pub struct Mat<const N: usize, S1: Space, S2: Space>(pub [[Scalar; N]; N], pub PhantomData<(S1, S2)>);

impl<const N: usize, S1: Space, S2: Space> Clone for Mat<N, S1, S2> {
    fn clone(&self) -> (r: Self)
        ensures
            r == *self,
    {
        *self
    }
}

impl<const N: usize, S1: Space, S2: Space> Copy for Mat<N, S1, S2> {
}

impl<const N: usize, S1: Space, S2: Space> Mat<N, S1, S2> {
    /// The entry in row `r` and column `c`.
    pub open spec fn at(self, r: int, c: int) -> Scalar {
        self.0[r][c]
    }

    /// The matrix with the given rows.
    pub fn new(vals: [[Scalar; N]; N]) -> (m: Self)
        ensures
            m.0 == vals,
    {
        Mat(vals, PhantomData)
    }

    /// The entry in row `r` and column `c`.
    pub fn get(&self, r: usize, c: usize) -> (v: Scalar)
        requires
            r < N,
            c < N,
        ensures
            v == self.at(r as int, c as int),
    {
        self.0[r][c]
    }

    /// Replaces the entry in row `r` and column `c`.
    pub fn set(&mut self, r: usize, c: usize, v: Scalar)
        requires
            r < N,
            c < N,
        ensures
            final(self).at(r as int, c as int) == v,
            forall|i: int, j: int|
                0 <= i < N && 0 <= j < N && (i != r || j != c) ==> final(self).at(i, j) == old(
                    self,
                ).at(i, j),
    {
        let mut row = self.0[r];
        row[c] = v;
        self.0[r] = row;
    }

    /// Whether the matrix is `m` mirrored at its diagonal.
    pub open spec fn is_transpose_of(self, m: Mat<N, S2, S1>) -> bool {
        forall|i: int, j: int| 0 <= i < N && 0 <= j < N ==> self.at(i, j) == m.at(j, i)
    }

    /// The matrix mirrored at its diagonal.
    pub fn transpose(&self) -> (t: Mat<N, S2, S1>)
        ensures
            t.is_transpose_of(*self),
    {
        let mut res: Mat<N, S2, S1> = Mat(self.0, PhantomData);
        let mut i: usize = 0;
        while i < N
            invariant
                i <= N,
                forall|a: int, b: int| 0 <= a < i && 0 <= b < N ==> res.at(a, b) == self.at(b, a),
            decreases N - i,
        {
            let mut j: usize = 0;
            while j < N
                invariant
                    i < N,
                    j <= N,
                    forall|a: int, b: int|
                        0 <= a < i && 0 <= b < N ==> res.at(a, b) == self.at(b, a),
                    forall|b: int| 0 <= b < j ==> res.at(i as int, b) == self.at(b, i as int),
                decreases N - j,
            {
                res.set(i, j, self.get(j, i));
                j += 1;
            }
            i += 1;
        }
        res
    }
}

impl<const N: usize, S1: Space, S2: Space> Mat<N, S1, S2> {
    /// Whether the matrix has ones on its diagonal and zeros elsewhere.
    pub open spec fn is_identity(self) -> bool {
        forall|i: int, j: int|
            0 <= i < N && 0 <= j < N ==> (#[trigger] self.at(i, j)).bits == (if i == j {
                0x3FF0_0000_0000_0000u64
            } else {
                0u64
            })
    }

    /// Whether every entry of the matrix is positive zero.
    pub open spec fn is_zero(self) -> bool {
        forall|i: int, j: int| 0 <= i < N && 0 <= j < N ==> (#[trigger] self.at(i, j)).bits == 0
    }

    /// The matrix of zeros.
    pub fn zeroed() -> (m: Self)
        ensures
            m.is_zero(),
    {
        let z: Scalar = Scalar::zero();
        let row: [Scalar; N] = [z;N];
        let rows: [[Scalar; N]; N] = [row;N];
        assert(row == vstd::array::spec_array_fill_for_copy_type::<Scalar, N>(z));
        assert(rows == vstd::array::spec_array_fill_for_copy_type::<[Scalar; N], N>(row));
        let m: Self = Mat(rows, PhantomData);
        proof {
            broadcast use vstd::array::group_array_axioms;

            assert forall|i: int, j: int| 0 <= i < N && 0 <= j < N implies (#[trigger] m.at(
                i,
                j,
            )).bits == 0 by {
                assert(rows@[i] == row);
                assert(row@[j] == z);
            }
        }
        m
    }

    /// The matrix that changes nothing.
    pub fn identity() -> (m: Self)
        ensures
            m.is_identity(),
    {
        let mut res: Self = Self::zeroed();
        let mut i: usize = 0;
        while i < N
            invariant
                i <= N,
                forall|a: int, b: int|
                    0 <= a < N && 0 <= b < N ==> (#[trigger] res.at(a, b)).bits == (if a == b
                        && a < i {
                        0x3FF0_0000_0000_0000u64
                    } else {
                        0u64
                    }),
            decreases N - i,
        {
            res.set(i, i, Scalar::one());
            i += 1;
        }
        res
    }
}

/// The cofactor that belongs to the minor of row `r` and column `c`: the
/// minor itself where `r + c` is even, and the minor with the opposite sign
/// where it is odd.
pub fn cofactor(minor: Scalar, r: usize, c: usize) -> (v: Scalar)
    ensures
        (r + c) % 2 == 0 ==> v == minor,
        (r + c) % 2 == 1 ==> v.magnitude() == minor.magnitude() && v.sign() != minor.sign(),
{
    if (r % 2 == 0) == (c % 2 == 0) {
        minor
    } else {
        minor.neg()
    }
}

/// Whether a matrix with the given determinant has an inverse: the
/// determinant is not zero.
pub fn is_invertible(determinant: Scalar) -> (r: bool)
    ensures
        r == !determinant.same_number(Scalar { bits: 0 }),
{
    !(determinant == Scalar::zero())
}

/// The row or column of a matrix that the row or column `i` of its
/// submatrix is taken from, where `removed` is left out.
pub open spec fn kept(i: int, removed: int) -> int {
    if i < removed {
        i
    } else {
        i + 1
    }
}

/// The index in the larger matrix of row or column `i` of a submatrix.
fn source_index(i: usize, removed: usize) -> (k: usize)
    requires
        i < usize::MAX,
    ensures
        k == kept(i as int, removed as int),
{
    if i < removed {
        i
    } else {
        i + 1
    }
}

impl<S1: Space, S2: Space> Mat<3, S1, S2> {
    /// The matrix without row `r` and column `c`.
    pub fn submatrix(self, r: usize, c: usize) -> (m: Mat<2, S1, S2>)
        requires
            r < 3,
            c < 3,
        ensures
            forall|i: int, j: int|
                0 <= i < 2 && 0 <= j < 2 ==> m.at(i, j) == self.at(
                    kept(i, r as int),
                    kept(j, c as int),
                ),
    {
        let mut res: Mat<2, S1, S2> = Mat::<2, S1, S2>::zeroed();
        let mut i: usize = 0;
        while i < 2
            invariant
                i <= 2,
                r < 3,
                c < 3,
                forall|a: int, b: int|
                    0 <= a < i && 0 <= b < 2 ==> res.at(a, b) == self.at(
                        kept(a, r as int),
                        kept(b, c as int),
                    ),
            decreases 2 - i,
        {
            let mut j: usize = 0;
            while j < 2
                invariant
                    i < 2,
                    j <= 2,
                    r < 3,
                    c < 3,
                    forall|a: int, b: int|
                        0 <= a < i && 0 <= b < 2 ==> res.at(a, b) == self.at(
                            kept(a, r as int),
                            kept(b, c as int),
                        ),
                    forall|b: int|
                        0 <= b < j ==> res.at(i as int, b) == self.at(
                            kept(i as int, r as int),
                            kept(b, c as int),
                        ),
                decreases 2 - j,
            {
                res.set(i, j, self.get(source_index(i, r), source_index(j, c)));
                j += 1;
            }
            i += 1;
        }
        res
    }
}

impl<S1: Space, S2: Space> Mat<4, S1, S2> {
    /// The matrix without row `r` and column `c`.
    pub fn submatrix(self, r: usize, c: usize) -> (m: Mat<3, S1, S2>)
        requires
            r < 4,
            c < 4,
        ensures
            forall|i: int, j: int|
                0 <= i < 3 && 0 <= j < 3 ==> m.at(i, j) == self.at(
                    kept(i, r as int),
                    kept(j, c as int),
                ),
    {
        let mut res: Mat<3, S1, S2> = Mat::<3, S1, S2>::zeroed();
        let mut i: usize = 0;
        while i < 3
            invariant
                i <= 3,
                r < 4,
                c < 4,
                forall|a: int, b: int|
                    0 <= a < i && 0 <= b < 3 ==> res.at(a, b) == self.at(
                        kept(a, r as int),
                        kept(b, c as int),
                    ),
            decreases 3 - i,
        {
            let mut j: usize = 0;
            while j < 3
                invariant
                    i < 3,
                    j <= 3,
                    r < 4,
                    c < 4,
                    forall|a: int, b: int|
                        0 <= a < i && 0 <= b < 3 ==> res.at(a, b) == self.at(
                            kept(a, r as int),
                            kept(b, c as int),
                        ),
                    forall|b: int|
                        0 <= b < j ==> res.at(i as int, b) == self.at(
                            kept(i as int, r as int),
                            kept(b, c as int),
                        ),
                decreases 3 - j,
            {
                res.set(i, j, self.get(source_index(i, r), source_index(j, c)));
                j += 1;
            }
            i += 1;
        }
        res
    }
}

impl<const N: usize, S1: Space, S2: Space> Default for Mat<N, S1, S2> {
    /// The matrix of zeros.
    fn default() -> (m: Self)
        ensures
            m.is_zero(),
    {
        Self::zeroed()
    }
}

/// Mirroring a matrix twice gives the matrix back.
pub proof fn lemma_transpose_twice<const N: usize, S1: Space, S2: Space>(
    m: Mat<N, S1, S2>,
    t: Mat<N, S2, S1>,
    u: Mat<N, S1, S2>,
)
    requires
        t.is_transpose_of(m),
        u.is_transpose_of(t),
    ensures
        u.0 == m.0,
{
    assert forall|i: int| 0 <= i < N implies u.0@[i] == m.0@[i] by {
        assert forall|j: int| 0 <= j < N implies u.0@[i]@[j] == m.0@[i]@[j] by {
            assert(u.at(i, j) == t.at(j, i));
            assert(t.at(j, i) == m.at(i, j));
        }
        assert(u.0@[i] =~= m.0@[i]);
    }
    assert(u.0 =~= m.0);
}

/// The identity is its own mirror image.
pub proof fn lemma_identity_transpose<const N: usize, S1: Space, S2: Space>(
    m: Mat<N, S1, S2>,
    t: Mat<N, S2, S1>,
)
    requires
        m.is_identity(),
        t.is_transpose_of(m),
    ensures
        t.is_identity(),
{
    assert forall|i: int, j: int| 0 <= i < N && 0 <= j < N implies (#[trigger] t.at(i, j)).bits
        == (if i == j {
        0x3FF0_0000_0000_0000u64
    } else {
        0u64
    }) by {
        assert(t.at(i, j) == m.at(j, i));
    }
}

} // verus!
