use vstd::prelude::*;

use crate::math::{in_range, mul_wide};

verus! {

/// An exact rational number `num / den`, with `den > 0`.
#[derive(Clone, Copy, Debug, PartialEq, Eq, Hash, Structural)]
pub struct Scalar {
    pub num: i64,
    pub den: i64,
}

/// `a <= b`.
pub open spec fn q_le(a: Scalar, b: Scalar) -> bool {
    a.num * b.den <= b.num * a.den
}

/// Numerator of `a + b`, over the denominator `q_add_den(a, b)`.
pub open spec fn q_add_num(a: Scalar, b: Scalar) -> int {
    a.num * b.den + b.num * a.den
}

/// Denominator of `a + b`.
pub open spec fn q_add_den(a: Scalar, b: Scalar) -> int {
    a.den * b.den
}

/// Whether `a + b` can be held as a `Scalar`.
pub open spec fn q_add_fits(a: Scalar, b: Scalar) -> bool {
    in_range(q_add_num(a, b)) && in_range(q_add_den(a, b))
}

/// `a + b`, on representations that fit.
pub open spec fn q_add(a: Scalar, b: Scalar) -> Scalar {
    Scalar { num: q_add_num(a, b) as i64, den: q_add_den(a, b) as i64 }
}

impl Scalar {
    /// Whether the denominator is positive.
    pub open spec fn wf(&self) -> bool {
        self.den > 0
    }

    /// The number `num / den`.
    pub fn new(num: i64, den: i64) -> (r: Scalar)
        requires
            den > 0,
        ensures
            r == (Scalar { num, den }),
    {
        Scalar { num, den }
    }

    /// The integer `n`.
    pub fn from_int(n: i64) -> (r: Scalar)
        ensures
            r == (Scalar { num: n, den: 1 }),
    {
        Scalar { num: n, den: 1 }
    }

    /// Whether `self <= other`.
    pub fn le(&self, other: &Scalar) -> (r: bool)
        ensures
            r == q_le(*self, *other),
    {
        mul_wide(self.num, other.den) <= mul_wide(other.num, self.den)
    }

    /// `self + other`.
    pub fn add(&self, other: &Scalar) -> (r: Scalar)
        requires
            q_add_fits(*self, *other),
        ensures
            r == q_add(*self, *other),
    {
        let num = mul_wide(self.num, other.den) + mul_wide(other.num, self.den);
        let den = mul_wide(self.den, other.den);
        Scalar { num: num as i64, den: den as i64 }
    }

    /// `-self`.
    pub fn neg(&self) -> (r: Scalar)
        requires
            self.num != i64::MIN,
        ensures
            r == (Scalar { num: (-self.num) as i64, den: self.den }),
    {
        Scalar { num: -self.num, den: self.den }
    }

    /// `self / 2`.
    pub fn half(&self) -> (r: Scalar)
        requires
            in_range(self.den * 2),
        ensures
            r == (Scalar { num: self.num, den: (self.den * 2) as i64 }),
    {
        Scalar { num: self.num, den: self.den * 2 }
    }
}

/// A plane orthogonal to one coordinate axis: the points whose coordinate
/// `axis` (0, 1 or 2 for x, y, z) equals `offset`.
#[derive(Clone, Copy, Debug, PartialEq, Eq, Hash, Structural)]
pub struct Surface {
    pub axis: usize,
    pub offset: Scalar,
}

/// The first in-plane axis of a plane orthogonal to `axis`.
pub open spec fn u_axis(axis: int) -> int {
    (axis + 1) % 3
}

/// The second in-plane axis of a plane orthogonal to `axis`.
pub open spec fn v_axis(axis: int) -> int {
    (axis + 2) % 3
}

/// A rectangular face on a plane: coordinate `u_axis` runs over
/// `[min_u, max_u]` and coordinate `v_axis` over `[min_v, max_v]`.
#[derive(Clone, Copy, Debug, PartialEq, Eq, Hash, Structural)]
pub struct Face {
    pub surface: Surface,
    pub min_u: Scalar,
    pub max_u: Scalar,
    pub min_v: Scalar,
    pub max_v: Scalar,
}

/// The bounds of face `f` along in-plane axis `axis`.
pub open spec fn face_bounds(f: Face, axis: int) -> (Scalar, Scalar) {
    if axis == u_axis(f.surface.axis as int) {
        (f.min_u, f.max_u)
    } else {
        (f.min_v, f.max_v)
    }
}

/// `f` moved by `offset` (one entry per axis).
pub open spec fn translate_face(f: Face, offset: [Scalar; 3]) -> Face {
    let a = f.surface.axis as int;
    Face {
        surface: Surface { axis: f.surface.axis, offset: q_add(f.surface.offset, offset@[a]) },
        min_u: q_add(f.min_u, offset@[u_axis(a)]),
        max_u: q_add(f.max_u, offset@[u_axis(a)]),
        min_v: q_add(f.min_v, offset@[v_axis(a)]),
        max_v: q_add(f.max_v, offset@[v_axis(a)]),
    }
}

/// Whether `f` can be moved by `offset` with every number held as a `Scalar`.
pub open spec fn translate_fits(f: Face, offset: [Scalar; 3]) -> bool {
    let a = f.surface.axis as int;
    &&& a < 3
    &&& q_add_fits(f.surface.offset, offset@[a])
    &&& q_add_fits(f.min_u, offset@[u_axis(a)])
    &&& q_add_fits(f.max_u, offset@[u_axis(a)])
    &&& q_add_fits(f.min_v, offset@[v_axis(a)])
    &&& q_add_fits(f.max_v, offset@[v_axis(a)])
}

/// The face on the plane orthogonal to `axis` at `offset`, spanning `[-h, h]`
/// along both in-plane axes.
pub open spec fn square_face(axis: usize, offset: Scalar, h: Scalar) -> Face {
    let nh = Scalar { num: (-h.num) as i64, den: h.den };
    Face { surface: Surface { axis, offset }, min_u: nh, max_u: h, min_v: nh, max_v: h }
}

/// The six faces of the cube of half edge length `h` centered at the origin.
pub open spec fn cube_faces(h: Scalar) -> Seq<Face> {
    let nh = Scalar { num: (-h.num) as i64, den: h.den };
    seq![
        square_face(0, nh, h),
        square_face(0, h, h),
        square_face(1, nh, h),
        square_face(1, h, h),
        square_face(2, nh, h),
        square_face(2, h, h),
    ]
}

/// A solid, as the set of faces that bound it.
#[derive(Clone, Debug)]
pub struct Solid {
    faces: Vec<Face>,
}

impl View for Solid {
    type V = Set<Face>;

    closed spec fn view(&self) -> Set<Face> {
        self.faces@.to_set()
    }
}

/// Adds `f` to `v` unless it is there already.
pub(crate) fn insert_unique(v: &mut Vec<Face>, f: Face)
    requires
        old(v)@.no_duplicates(),
    ensures
        final(v)@.no_duplicates(),
        final(v)@.to_set() == old(v)@.to_set().insert(f),
{
    let mut k: usize = 0;
    while k < v.len()
        invariant
            0 <= k <= v.len(),
            v@ == old(v)@,
            v@.no_duplicates(),
            forall|i: int| 0 <= i < k ==> v@[i] != f,
        decreases v.len() - k,
    {
        if v[k] == f {
            assert(v@.to_set().insert(f) =~= v@.to_set()) by {
                assert(v@.contains(f)) by {
                    assert(v@[k as int] == f);
                }
            }
            return;
        }
        k = k + 1;
    }
    let ghost before = v@;
    v.push(f);
    proof {
        before.lemma_push_to_set_commute(f);
        assert(v@ == before.push(f));
    }
}

impl Solid {
    /// The faces of the solid, each once.
    pub closed spec fn wf(&self) -> bool {
        self.faces@.no_duplicates()
    }

    /// Build a solid from faces, each kept once, in any order.
    pub fn from_faces(faces: Vec<Face>) -> (r: Solid)
        ensures
            r@ == faces@.to_set(),
            r.wf(),
    {
        let mut out: Vec<Face> = Vec::new();
        let mut i: usize = 0;
        while i < faces.len()
            invariant
                0 <= i <= faces.len(),
                out@.no_duplicates(),
                out@.to_set() == faces@.subrange(0, i as int).to_set(),
            decreases faces.len() - i,
        {
            insert_unique(&mut out, faces[i]);
            proof {
                faces@.subrange(0, i as int).lemma_push_to_set_commute(faces@[i as int]);
                assert(faces@.subrange(0, i + 1) =~= faces@.subrange(0, i as int).push(
                    faces@[i as int],
                ));
            }
            i = i + 1;
        }
        assert(faces@.subrange(0, faces@.len() as int) =~= faces@);
        Solid { faces: out }
    }

    /// The faces of the solid.
    pub fn faces(&self) -> (r: &Vec<Face>)
        ensures
            r@.to_set() == self@,
            self.wf() ==> r@.no_duplicates(),
    {
        &self.faces
    }

    /// Whether `f` is a face of the solid.
    pub fn contains(&self, f: &Face) -> (r: bool)
        ensures
            r == self@.contains(*f),
    {
        let mut k: usize = 0;
        while k < self.faces.len()
            invariant
                0 <= k <= self.faces.len(),
                forall|i: int| 0 <= i < k ==> self.faces@[i] != *f,
            decreases self.faces.len() - k,
        {
            if self.faces[k] == *f {
                assert(self.faces@[k as int] == *f);
                return true;
            }
            k = k + 1;
        }
        false
    }

    /// Whether every face of `self` is a face of `other`.
    pub fn is_subset_of(&self, other: &Solid) -> (r: bool)
        ensures
            r == self@.subset_of(other@),
    {
        let mut k: usize = 0;
        while k < self.faces.len()
            invariant
                0 <= k <= self.faces.len(),
                forall|i: int| 0 <= i < k ==> other@.contains(#[trigger] self.faces@[i]),
            decreases self.faces.len() - k,
        {
            if !other.contains(&self.faces[k]) {
                assert(self@.contains(self.faces@[k as int]));
                return false;
            }
            k = k + 1;
        }
        true
    }

    /// The cube with edges of length `edge`, centered at the origin, with its
    /// faces orthogonal to the axes.
    pub fn cube_from_edge_length(edge: Scalar) -> (r: Solid)
        requires
            edge.wf(),
            in_range(edge.den * 2),
            edge.num != i64::MIN,
        ensures
            r@ == cube_faces(Scalar { num: edge.num, den: (edge.den * 2) as i64 }).to_set(),
            r.wf(),
    {
        let h = edge.half();
        let nh = h.neg();
        let mut faces: Vec<Face> = Vec::new();
        let mut axis: usize = 0;
        while axis < 3
            invariant
                0 <= axis <= 3,
                nh == (Scalar { num: (-h.num) as i64, den: h.den }),
                faces@ == cube_faces(h).subrange(0, 2 * axis as int),
            decreases 3 - axis,
        {
            let low = Surface { axis, offset: nh };
            let high = Surface { axis, offset: h };
            faces.push(Face { surface: low, min_u: nh, max_u: h, min_v: nh, max_v: h });
            faces.push(Face { surface: high, min_u: nh, max_u: h, min_v: nh, max_v: h });
            assert(faces@ =~= cube_faces(h).subrange(0, 2 * axis + 2));
            axis = axis + 1;
        }
        assert(faces@ =~= cube_faces(h));
        Solid::from_faces(faces)
    }

    /// The solid moved by `offset` (one entry per axis).
    pub fn translate(self, offset: [Scalar; 3]) -> (r: Solid)
        requires
            forall|f: Face| self@.contains(f) ==> translate_fits(f, offset),
        ensures
            r@ == self@.map(|f: Face| translate_face(f, offset)),
            r.wf(),
    {
        let mut out: Vec<Face> = Vec::new();
        let mut i: usize = 0;
        while i < self.faces.len()
            invariant
                0 <= i <= self.faces.len(),
                forall|f: Face| self@.contains(f) ==> translate_fits(f, offset),
                out@ == self.faces@.subrange(0, i as int).map_values(
                    |f: Face| translate_face(f, offset),
                ),
            decreases self.faces.len() - i,
        {
            let f = self.faces[i];
            assert(self@.contains(f)) by {
                assert(self.faces@[i as int] == f);
            }
            assert(translate_fits(f, offset));
            let a = f.surface.axis;
            let ua = (a + 1) % 3;
            let va = (a + 2) % 3;
            let t = Face {
                surface: Surface { axis: a, offset: f.surface.offset.add(&offset[a]) },
                min_u: f.min_u.add(&offset[ua]),
                max_u: f.max_u.add(&offset[ua]),
                min_v: f.min_v.add(&offset[va]),
                max_v: f.max_v.add(&offset[va]),
            };
            out.push(t);
            assert(out@ =~= self.faces@.subrange(0, i + 1).map_values(
                |f: Face| translate_face(f, offset),
            ));
            i = i + 1;
        }
        proof {
            assert(self.faces@.subrange(0, self.faces@.len() as int) =~= self.faces@);
            self.faces@.lemma_to_set_map_commutes(|f: Face| translate_face(f, offset));
        }
        Solid::from_faces(out)
    }
}

impl PartialEq for Solid {
    /// Solids are equal when their face sets are.
    fn eq(&self, other: &Solid) -> (r: bool) {
        let r = self.is_subset_of(other) && other.is_subset_of(self);
        proof {
            if self@.subset_of(other@) && other@.subset_of(self@) {
                assert(self@ =~= other@);
            }
        }
        r
    }
}

impl vstd::std_specs::cmp::PartialEqSpecImpl for Solid {
    open spec fn obeys_eq_spec() -> bool {
        true
    }

    open spec fn eq_spec(&self, other: &Solid) -> bool {
        self@ == other@
    }
}

} // verus!
