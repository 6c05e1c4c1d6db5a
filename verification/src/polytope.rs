//! Newton polytope of a tropical polynomial.

use vstd::prelude::*;

use crate::rows::{copy_rows, first_len, first_len_of, rows_view};

verus! {

/// The Newton polytope of a tropical polynomial `f(x) = max_i (c_i + <a_i, x>)`:
/// the convex hull of the exponent vectors `a_i`, kept as its vertices.
/// `dimension` is the length of the first vertex.
pub struct NewtonPolytope<S> {
    pub vertices: Vec<Vec<S>>,
    pub dimension: usize,
}

impl<S> NewtonPolytope<S> {
    /// The polytope with these exponent vectors as vertices; its dimension is
    /// the length of the first vertex, or 0 when there is none.
    pub fn new(vertices: Vec<Vec<S>>) -> (res: Self)
        ensures
            res.vertices@ == vertices@,
            res.dimension == first_len_of(vertices@),
    {
        let dim: usize = first_len(vertices.as_slice());
        NewtonPolytope { vertices, dimension: dim }
    }

    /// The number of vertices.
    pub fn n_vertices(&self) -> (n: usize)
        ensures
            n == self.vertices@.len(),
    {
        self.vertices.len()
    }

    /// Whether the polytope has at most `dimension + 1` vertices, so that it
    /// is already a simplex and no mixed subdivision can split it.
    pub open spec fn is_simplex_sized(&self) -> bool {
        self.vertices@.len() <= self.dimension + 1
    }
}

impl<S: Copy> NewtonPolytope<S> {
    /// Subdivides the polytope at the given lifting. A polytope with at most
    /// `dimension + 1` vertices is returned whole; so is any other, as no
    /// finer subdivision is computed.
    pub fn subdivide(&self, _lift: &[S]) -> (pieces: Vec<NewtonPolytope<S>>)
        ensures
            pieces@.len() == 1,
            rows_view(pieces@[0].vertices@) == rows_view(self.vertices@),
            pieces@[0].dimension == self.dimension,
            pieces@[0].vertices@.len() == self.vertices@.len(),
            forall|i: int|
                0 <= i < self.vertices@.len() ==> #[trigger] pieces@[0].vertices@[i]@
                    == self.vertices@[i]@,
    {
        let n: usize = self.vertices.len();
        let simplex_sized: bool = n == 0 || n - 1 <= self.dimension;
        assert(simplex_sized == self.is_simplex_sized());
        if simplex_sized {
            return vec![self.clone()];
        }
        vec![self.clone()]
    }
}

impl<S: Copy> Clone for NewtonPolytope<S> {
    /// A copy with the same vertices, entry by entry, and the same dimension.
    fn clone(&self) -> (res: Self)
        ensures
            rows_view(res.vertices@) == rows_view(self.vertices@),
            res.dimension == self.dimension,
            res.vertices@.len() == self.vertices@.len(),
            forall|i: int|
                0 <= i < self.vertices@.len() ==> #[trigger] res.vertices@[i]@ == self.vertices@[i]@,
    {
        NewtonPolytope { vertices: copy_rows(self.vertices.as_slice()), dimension: self.dimension }
    }
}

} // verus!
