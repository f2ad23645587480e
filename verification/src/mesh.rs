//! Triangles as index triples into the shared point set, and the mesh
//! validation that stands between the triangulation collaborator and the
//! rasterization loop.

use vstd::prelude::*;

verus! {

/// A triangle: an ordered triple of indices into the sampled point set.
/// Coordinates are never duplicated into the triangle — the point array is
/// the single source of truth.
#[derive(Clone, Copy, PartialEq, Eq, Structural, Debug)]
pub struct Triangle {
    pub v0: usize,
    pub v1: usize,
    pub v2: usize,
}

/// Why a triangle list was rejected.
#[derive(Clone, Copy, PartialEq, Eq, Structural, Debug)]
pub enum MeshError {
    /// Triangulation needs at least three points.
    TooFewPoints,
    /// A triangle holds an out-of-range or repeated index.
    InvalidTriangle,
}

/// A triangle is valid for a point set of `n` points when its three indices
/// are in range and pairwise distinct.
pub open spec fn tri_valid(t: Triangle, n: int) -> bool {
    &&& t.v0 < n
    &&& t.v1 < n
    &&& t.v2 < n
    &&& t.v0 != t.v1
    &&& t.v1 != t.v2
    &&& t.v0 != t.v2
}

/// Validate a triangle list against the point count: the adapter around the
/// triangulation collaborator passes its output through unchanged, but a
/// point set of fewer than three points, or a triangle with an out-of-range
/// or repeated index, is rejected. No triangle is synthesized or discarded.
pub fn build_mesh(tris: Vec<Triangle>, n_points: usize) -> (r: Result<Vec<Triangle>, MeshError>)
    ensures
        r is Ok <==> (n_points >= 3 && forall|i: int|
            0 <= i < tris@.len() ==> tri_valid(#[trigger] tris@[i], n_points as int)),
        r is Ok ==> r->Ok_0@ == tris@,
        r == Result::<Vec<Triangle>, MeshError>::Err(MeshError::TooFewPoints) <==> n_points < 3,
{
    if n_points < 3 {
        return Err(MeshError::TooFewPoints);
    }
    let mut i: usize = 0;
    while i < tris.len()
        invariant
            3 <= n_points,
            i <= tris@.len(),
            forall|j: int| 0 <= j < i ==> tri_valid(#[trigger] tris@[j], n_points as int),
        decreases tris@.len() - i,
    {
        let t = tris[i];
        if !(t.v0 < n_points && t.v1 < n_points && t.v2 < n_points && t.v0 != t.v1 && t.v1 != t.v2
            && t.v0 != t.v2) {
            assert(!tri_valid(tris@[i as int], n_points as int));
            return Err(MeshError::InvalidTriangle);
        }
        i = i + 1;
    }
    Ok(tris)
}

} // verus!
