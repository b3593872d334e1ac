//! Exact geometry for a boundary-representation union.
//!
//! Coordinates are exact rationals held as integer numerators over a shared
//! positive denominator, so every conversion below is exact.

mod intersection;
mod laws;
mod line;
mod math;
mod objects;
mod union;

pub use laws::{
    lemma_coincidence_reflexive, lemma_coincidence_symmetric, lemma_line_coords_round_trip,
};
pub use line::{Line, LineError};
pub use math::{Point, Vector};
pub use objects::{Face, Scalar, Solid, Surface};
pub use intersection::{surface_surface, Curve, CurveFaceIntersectionList};
pub use union::{lemma_union_deterministic, union, UnionError};
