use vstd::prelude::*;

use crate::math::{
    add_h, combine_fits, dot, dot_fits, in_range, ints, is_parallel, is_zero_h, neg_h, parallel,
    scale_fits, scale_h, sub_h, valid_of_dim, Homogeneous, Point, Vector,
};

verus! {

/// A line as a spec value: its origin and its direction.
pub type LineView = (Homogeneous, Homogeneous);

/// A line of dimension `d`: origin and direction of that dimension, the direction not zero.
pub open spec fn valid_line(l: LineView, d: int) -> bool {
    &&& valid_of_dim(l.0, d)
    &&& valid_of_dim(l.1, d)
    &&& !is_zero_h(l.1)
}

/// Line coordinate of a vector: its scalar projection onto the direction,
/// divided by the direction's magnitude, `(v . d) / (d . d)`.
pub open spec fn vector_to_line_h(l: LineView, v: Homogeneous) -> Homogeneous {
    (seq![dot(v.0, l.1.0) * l.1.1], v.1 * dot(l.1.0, l.1.0))
}

/// Line coordinate of a point: that of the vector from the origin to it.
pub open spec fn point_to_line_h(l: LineView, p: Homogeneous) -> Homogeneous {
    vector_to_line_h(l, sub_h(p, l.0))
}

/// The vector `t * direction`.
pub open spec fn vector_from_line_h(l: LineView, t: Homogeneous) -> Homogeneous {
    scale_h(l.1, t)
}

/// The point `origin + t * direction`.
pub open spec fn point_from_line_h(l: LineView, t: Homogeneous) -> Homogeneous {
    add_h(l.0, vector_from_line_h(l, t))
}

/// Whether `m` is the same line as `l`: the origin of `m` lies on `l`, and the
/// directions are equal or opposite once normalized.
pub open spec fn coincident_h(l: LineView, m: LineView) -> bool {
    &&& parallel(sub_h(m.0, l.0).0, l.1.0)
    &&& parallel(l.1.0, m.1.0)
}

/// The line with the same origin and the direction negated.
pub open spec fn reverse_h(l: LineView) -> LineView {
    (l.0, neg_h(l.1))
}

/// Whether converting `v` to line coordinates stays within `i64`.
pub open spec fn vector_to_line_fits(l: LineView, v: Homogeneous) -> bool {
    &&& dot_fits(v.0, l.1.0)
    &&& dot_fits(l.1.0, l.1.0)
    &&& in_range(dot(v.0, l.1.0) * l.1.1)
    &&& in_range(v.1 * dot(l.1.0, l.1.0))
}

/// Why a line could not be constructed.
#[derive(Clone, Copy, Debug, PartialEq, Eq)]
pub enum LineError {
    /// The direction has a magnitude of zero.
    ZeroDirection,
}

/// An n-dimensional line, defined by an origin and a direction.
///
/// The dimensionality of the line is defined by the const generic `D`
/// parameter. The direction is never zero.
#[derive(Clone, Copy, Debug, PartialEq, Eq, Hash)]
pub struct Line<const D: usize> {
    origin: Point<D>,
    direction: Vector<D>,
}

impl<const D: usize> View for Line<D> {
    type V = LineView;

    closed spec fn view(&self) -> LineView {
        (self.origin@, self.direction@)
    }
}

impl<const D: usize> Line<D> {
    /// Whether the line is well formed.
    pub open spec fn wf(&self) -> bool {
        valid_line(self@, D as int)
    }

    /// Create a line from a point and a vector.
    ///
    /// Fails if `direction` has a length of zero.
    pub fn from_origin_and_direction(origin: Point<D>, direction: Vector<D>) -> (r: Result<
        Line<D>,
        LineError,
    >)
        requires
            origin.wf(),
            direction.wf(),
        ensures
            r is Err <==> is_zero_h(direction@),
            r is Err ==> r->Err_0 == LineError::ZeroDirection,
            r is Ok ==> r->Ok_0@ == (origin@, direction@) && r->Ok_0.wf(),
    {
        if direction.is_zero() {
            return Err(LineError::ZeroDirection);
        }
        let l = Line { origin, direction };
        assert(origin@.0.len() == D && direction@.0.len() == D);
        Ok(l)
    }

    /// Create a line from two points: it starts at the first and reaches the
    /// second at line coordinate 1.
    ///
    /// Fails if the points are coincident.
    pub fn from_points(points: [Point<D>; 2]) -> (r: Result<Line<D>, LineError>)
        requires
            points[0].wf(),
            points[1].wf(),
            combine_fits(points[1]@, points[0]@, true),
        ensures
            r is Err <==> crate::math::same_value(points[0]@, points[1]@),
            r is Err ==> r->Err_0 == LineError::ZeroDirection,
            r is Ok ==> r->Ok_0@ == (points[0]@, sub_h(points[1]@, points[0]@)) && r->Ok_0.wf(),
    {
        let a = points[0];
        let b = points[1];
        let direction = b.sub(&a);
        proof {
            assert(b.w * a.w > 0) by (nonlinear_arith)
                requires
                    a.w > 0,
                    b.w > 0,
            ;
            assert(a@.0.len() == D && b@.0.len() == D);
            if is_zero_h(direction@) {
                assert forall|i: int| 0 <= i < D implies #[trigger] (a@.0[i] * b@.1) == b@.0[i]
                    * a@.1 by {
                    assert(direction@.0[i] == 0);
                }
            }
            if crate::math::same_value(a@, b@) {
                assert forall|i: int| 0 <= i < D implies #[trigger] direction@.0[i] == 0 by {
                    assert(a@.0[i] * b@.1 == b@.0[i] * a@.1);
                }
            }
        }
        Self::from_origin_and_direction(a, direction)
    }

    /// Access the origin of the line.
    ///
    /// The origin is a point on the line which, together with the direction,
    /// defines the line fully. It is also the origin of the line's
    /// 1-dimensional coordinate system.
    pub fn origin(&self) -> (r: Point<D>)
        ensures
            r@ == self@.0,
    {
        self.origin
    }

    /// Access the direction of the line.
    ///
    /// The length of this vector is the unit of the line's coordinate system:
    /// coordinate 1 is where the direction points, from the origin.
    pub fn direction(&self) -> (r: Vector<D>)
        ensures
            r@ == self@.1,
    {
        self.direction
    }

    /// Determine if this line is coincident with another line.
    ///
    /// Only lines that are precisely coincident count.
    pub fn is_coincident_with(&self, other: &Line<D>) -> (r: bool)
        requires
            combine_fits(other@.0, self@.0, true),
        ensures
            r == coincident_h(self@, other@),
    {
        let offset = other.origin.sub(&self.origin);
        if !is_parallel(&offset.coords, &self.direction.coords) {
            return false;
        }
        is_parallel(&self.direction.coords, &other.direction.coords)
    }

    /// Create a new instance that is reversed.
    pub fn reverse(self) -> (r: Line<D>)
        requires
            self.wf(),
            forall|i: int| 0 <= i < D ==> self@.1.0[i] != i64::MIN,
        ensures
            r@ == reverse_h(self@),
            r.wf(),
    {
        proof {
            assert forall|i: int| 0 <= i < D implies self.direction.coords@[i] != i64::MIN by {
                assert(self@.1.0[i] == self.direction.coords@[i]);
            }
        }
        let direction = self.direction.neg();
        let r = Line { origin: self.origin, direction };
        proof {
            if is_zero_h(r@.1) {
                assert forall|i: int| 0 <= i < self@.1.0.len() implies self@.1.0[i] == 0 by {
                    assert(r@.1.0[i] == 0);
                }
            }
        }
        r
    }

    /// Convert a `D`-dimensional point to line coordinates.
    ///
    /// Projects the point onto the line, so a point off the line never causes
    /// an error; callers that need exactness check that the point is on it.
    pub fn point_to_line_coords(&self, point: Point<D>) -> (r: Point<1>)
        requires
            self.wf(),
            point.wf(),
            combine_fits(point@, self@.0, true),
            vector_to_line_fits(self@, sub_h(point@, self@.0)),
        ensures
            r@ == point_to_line_h(self@, point@),
            r.wf(),
    {
        let v = point.sub(&self.origin);
        proof {
            assert(point.w * self.origin.w > 0) by (nonlinear_arith)
                requires
                    point.w > 0,
                    self.origin.w > 0,
            ;
        }
        let t = self.vector_to_line_coords(v);
        Point { coords: t.coords, w: t.w }
    }

    /// Convert a `D`-dimensional vector to line coordinates.
    pub fn vector_to_line_coords(&self, vector: Vector<D>) -> (r: Vector<1>)
        requires
            self.wf(),
            vector.wf(),
            vector_to_line_fits(self@, vector@),
        ensures
            r@ == vector_to_line_h(self@, vector@),
            r.wf(),
    {
        let n = vector.dot(&self.direction);
        let s = self.direction.dot(&self.direction);
        proof {
            crate::laws::lemma_dot_self_positive(self@.1);
            assert(vector.w * s > 0) by (nonlinear_arith)
                requires
                    vector.w > 0,
                    s > 0,
            ;
        }
        let num = (n as i128) * (self.direction.w as i128);
        let den = (vector.w as i128) * (s as i128);
        let r = Vector { coords: [num as i64], w: den as i64 };
        assert(r@.0 =~= vector_to_line_h(self@, vector@).0);
        r
    }

    /// Convert a point in line coordinates into a `D`-dimensional point.
    pub fn point_from_line_coords(&self, point: Point<1>) -> (r: Point<D>)
        requires
            self.wf(),
            point.wf(),
            scale_fits(self@.1, point@),
            combine_fits(self@.0, vector_from_line_h(self@, point@), false),
        ensures
            r@ == point_from_line_h(self@, point@),
    {
        let v = self.vector_from_line_coords(Vector { coords: point.coords, w: point.w });
        self.origin.add_vector(&v)
    }

    /// Convert a vector in line coordinates into a `D`-dimensional vector.
    pub fn vector_from_line_coords(&self, vector: Vector<1>) -> (r: Vector<D>)
        requires
            scale_fits(self@.1, vector@),
        ensures
            r@ == vector_from_line_h(self@, vector@),
    {
        self.direction.scale(&vector)
    }
}

} // verus!
