//! The geometric kernel of a ray tracer: a dense matrix engine over a
//! generic element type (products, transposes, submatrices, determinants by
//! cofactor expansion, inverses and the homogeneous transforms), the choice of
//! the visible hit among ray parameters, and the named colors.
use vstd::prelude::*;

pub mod arith;
pub mod color;
pub mod intersections;
pub mod laws;
pub mod matrix;
pub mod model;

verus! {

} // verus!
