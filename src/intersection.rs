use vstd::prelude::*;

use crate::objects::{face_bounds, q_le, Face, Scalar, Surface};

verus! {

/// A line on a plane, seen from that plane: the points of the plane whose
/// coordinate `axis` equals `offset`.
#[derive(Clone, Copy, Debug, PartialEq, Eq, Structural)]
pub struct Curve {
    pub axis: usize,
    pub offset: Scalar,
}

/// Whether two planes meet in a line: they are not parallel. Parallel planes,
/// coincident or disjoint, give no intersection curve.
pub open spec fn surfaces_intersect(a: Surface, b: Surface) -> bool {
    a.axis != b.axis
}

/// The axis that neither `a` nor `b` is, for two different axes below 3.
pub open spec fn third_axis(a: int, b: int) -> int {
    3 - a - b
}

/// Whether the curve runs through face `f`: its offset lies within the face's
/// bounds along the curve's axis.
pub open spec fn curve_crosses(f: Face, c: Curve) -> bool {
    let (lo, hi) = face_bounds(f, c.axis as int);
    q_le(lo, c.offset) && q_le(c.offset, hi)
}

/// The curve in which two planes intersect, expressed on the first plane and
/// on the second, or `None` for parallel planes.
pub fn surface_surface(a: &Surface, b: &Surface) -> (r: Option<(Curve, Curve)>)
    ensures
        r is Some <==> surfaces_intersect(*a, *b),
        r is Some ==> r->0 == (Curve { axis: b.axis, offset: b.offset }, Curve {
            axis: a.axis,
            offset: a.offset,
        }),
{
    if a.axis == b.axis {
        None
    } else {
        Some((Curve { axis: b.axis, offset: b.offset }, Curve { axis: a.axis, offset: a.offset }))
    }
}

/// The ranges of curve coordinates in which a curve lies inside a face, in
/// increasing order.
#[derive(Clone, Debug)]
pub struct CurveFaceIntersectionList {
    pub intervals: Vec<(Scalar, Scalar)>,
}

impl CurveFaceIntersectionList {
    /// The ranges in which `curve`, a line on the plane of `face`, lies inside
    /// `face`. The curve runs along the third axis, so where it enters the face
    /// it spans the face's bounds on that axis.
    pub fn compute(curve: &Curve, face: &Face) -> (r: CurveFaceIntersectionList)
        requires
            face.surface.axis < 3,
            curve.axis < 3,
            curve.axis != face.surface.axis,
        ensures
            r.intervals@ == if curve_crosses(*face, *curve) {
                seq![face_bounds(*face, third_axis(face.surface.axis as int, curve.axis as int))]
            } else {
                Seq::<(Scalar, Scalar)>::empty()
            },
    {
        let a = face.surface.axis;
        let (lo, hi) = if curve.axis == (a + 1) % 3 {
            (face.min_u, face.max_u)
        } else {
            (face.min_v, face.max_v)
        };
        let mut intervals: Vec<(Scalar, Scalar)> = Vec::new();
        if lo.le(&curve.offset) && curve.offset.le(&hi) {
            let third = 3 - a - curve.axis;
            let along = if third == (a + 1) % 3 {
                (face.min_u, face.max_u)
            } else {
                (face.min_v, face.max_v)
            };
            intervals.push(along);
            assert(intervals@ =~= seq![along]);
        }
        CurveFaceIntersectionList { intervals }
    }

    /// Whether the curve never enters the face.
    pub fn is_empty(&self) -> (r: bool)
        ensures
            r == (self.intervals@.len() == 0),
    {
        self.intervals.len() == 0
    }
}

} // verus!
