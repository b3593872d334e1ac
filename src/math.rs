use vstd::prelude::*;

verus! {

/// A rational `D`-tuple as a spec value: numerators and a shared denominator.
pub type Homogeneous = (Seq<int>, int);

/// Whether `x` fits in an `i64`.
pub open spec fn in_range(x: int) -> bool {
    i64::MIN <= x <= i64::MAX
}

/// The numerators of an integer array, as mathematical integers.
pub open spec fn ints<const D: usize>(a: [i64; D]) -> Seq<int> {
    a@.map_values(|x: i64| x as int)
}

/// Sum of the first `n` products `a[i] * b[i]`.
pub open spec fn dot_upto(a: Seq<int>, b: Seq<int>, n: int) -> int
    decreases n,
{
    if n <= 0 {
        0
    } else {
        dot_upto(a, b, n - 1) + a[n - 1] * b[n - 1]
    }
}

/// The dot product of the numerators.
pub open spec fn dot(a: Seq<int>, b: Seq<int>) -> int {
    dot_upto(a, b, a.len() as int)
}

/// A well-formed value of dimension `d`: `d` numerators over a positive denominator.
pub open spec fn valid_of_dim(v: Homogeneous, d: int) -> bool {
    v.0.len() == d && v.1 > 0
}

/// `p - q`, over the product of the denominators.
pub open spec fn sub_h(p: Homogeneous, q: Homogeneous) -> Homogeneous {
    (Seq::new(p.0.len(), |i: int| p.0[i] * q.1 - q.0[i] * p.1), p.1 * q.1)
}

/// `p + q`, over the product of the denominators.
pub open spec fn add_h(p: Homogeneous, q: Homogeneous) -> Homogeneous {
    (Seq::new(p.0.len(), |i: int| p.0[i] * q.1 + q.0[i] * p.1), p.1 * q.1)
}

/// `v` scaled by the one-dimensional value `t`.
pub open spec fn scale_h(v: Homogeneous, t: Homogeneous) -> Homogeneous {
    (Seq::new(v.0.len(), |i: int| v.0[i] * t.0[0]), v.1 * t.1)
}

/// `-v`.
pub open spec fn neg_h(v: Homogeneous) -> Homogeneous {
    (Seq::new(v.0.len(), |i: int| -v.0[i]), v.1)
}

/// Whether `a` and `b` denote the same rational tuple.
pub open spec fn same_value(a: Homogeneous, b: Homogeneous) -> bool {
    &&& a.0.len() == b.0.len()
    &&& forall|i: int| 0 <= i < a.0.len() ==> #[trigger] a.0[i] * b.1 == b.0[i] * a.1
}

/// Whether every coordinate of `v` is zero, that is, whether its magnitude is zero.
pub open spec fn is_zero_h(v: Homogeneous) -> bool {
    forall|i: int| 0 <= i < v.0.len() ==> #[trigger] v.0[i] == 0
}

/// One numerator of `sub_h` (`negate`) or of `add_h`.
pub open spec fn combined(a: int, aw: int, b: int, bw: int, negate: bool) -> int {
    if negate {
        a * bw - b * aw
    } else {
        a * bw + b * aw
    }
}

/// Whether the exact results of `sub_h(p, q)` (`negate`) or `add_h(p, q)` fit in `i64`.
pub open spec fn combine_fits(p: Homogeneous, q: Homogeneous, negate: bool) -> bool {
    &&& in_range(p.1 * q.1)
    &&& forall|i: int|
        0 <= i < p.0.len() ==> in_range(#[trigger] combined(p.0[i], p.1, q.0[i], q.1, negate))
}

/// Whether every partial sum of `dot(a, b)` fits in `i64`.
pub open spec fn dot_fits(a: Seq<int>, b: Seq<int>) -> bool {
    forall|k: int| 0 <= k <= a.len() ==> #[trigger] in_range(dot_upto(a, b, k))
}

/// Whether the exact result of `scale_h(v, t)` fits in `i64`.
pub open spec fn scale_fits(v: Homogeneous, t: Homogeneous) -> bool {
    &&& in_range(v.1 * t.1)
    &&& forall|i: int| 0 <= i < v.0.len() ==> #[trigger] in_range(v.0[i] * t.0[0])
}

/// Whether `a` and `b` are parallel: every 2x2 minor of the pair is zero.
pub open spec fn parallel(a: Seq<int>, b: Seq<int>) -> bool {
    forall|i: int, j: int|
        0 <= i < a.len() && 0 <= j < a.len() ==> #[trigger] (a[i] * b[j]) == #[trigger] (a[j]
            * b[i])
}

/// A point in `D`-dimensional space: `coords[i] / w` in each dimension.
#[derive(Clone, Copy, Debug, PartialEq, Eq, Hash)]
pub struct Point<const D: usize> {
    pub coords: [i64; D],
    pub w: i64,
}

/// A vector in `D`-dimensional space: `coords[i] / w` in each dimension.
#[derive(Clone, Copy, Debug, PartialEq, Eq, Hash)]
pub struct Vector<const D: usize> {
    pub coords: [i64; D],
    pub w: i64,
}

impl<const D: usize> View for Point<D> {
    type V = Homogeneous;

    open spec fn view(&self) -> Homogeneous {
        (ints(self.coords), self.w as int)
    }
}

impl<const D: usize> View for Vector<D> {
    type V = Homogeneous;

    open spec fn view(&self) -> Homogeneous {
        (ints(self.coords), self.w as int)
    }
}

/// The largest magnitude of a product of two `i64` values, `2^126`.
pub const WIDE_BOUND: i128 = 0x4000_0000_0000_0000_0000_0000_0000_0000;

/// `a * b`, widened so that it cannot overflow.
pub(crate) fn mul_wide(a: i64, b: i64) -> (r: i128)
    ensures
        r == a * b,
        -WIDE_BOUND <= r <= WIDE_BOUND,
{
    proof {
        assert(-WIDE_BOUND <= (a as int) * (b as int) <= WIDE_BOUND) by (nonlinear_arith)
            requires
                i64::MIN <= a <= i64::MAX,
                i64::MIN <= b <= i64::MAX,
        ;
    }
    (a as i128) * (b as i128)
}

/// Numerators of `p` and `q` combined as in `sub_h` (`negate`) or `add_h`.
fn combine<const D: usize>(p: &[i64; D], pw: i64, q: &[i64; D], qw: i64, negate: bool) -> (r: [i64;
    D])
    requires
        combine_fits((ints(*p), pw as int), (ints(*q), qw as int), negate),
    ensures
        forall|i: int|
            0 <= i < D ==> #[trigger] r@[i] == combined(
                p@[i] as int,
                pw as int,
                q@[i] as int,
                qw as int,
                negate,
            ),
{
    let mut r: [i64; D] = [0i64; D];
    let mut i: usize = 0;
    while i < D
        invariant
            0 <= i <= D,
            combine_fits((ints(*p), pw as int), (ints(*q), qw as int), negate),
            forall|k: int|
                0 <= k < i ==> #[trigger] r@[k] == combined(
                    p@[k] as int,
                    pw as int,
                    q@[k] as int,
                    qw as int,
                    negate,
                ),
        decreases D - i,
    {
        let a = mul_wide(p[i], qw);
        let b = mul_wide(q[i], pw);
        assert(ints(*p).len() == D);
        let ghost gp = (ints(*p), pw as int);
        let ghost gq = (ints(*q), qw as int);
        assert(combine_fits(gp, gq, negate));
        assert(in_range(combined(gp.0[i as int], gp.1, gq.0[i as int], gq.1, negate)));
        let c: i128 = if negate { a - b } else { a + b };
        r[i] = c as i64;
        i = i + 1;
    }
    r
}

impl<const D: usize> Point<D> {
    /// Whether the point has a positive denominator.
    pub open spec fn wf(&self) -> bool {
        self.w > 0
    }

    /// The point with numerators `coords` over denominator `w`.
    pub fn new(coords: [i64; D], w: i64) -> (r: Point<D>)
        requires
            w > 0,
        ensures
            r.wf(),
            r.coords == coords,
            r.w == w,
    {
        Point { coords, w }
    }

    /// The vector from `other` to `self`.
    pub fn sub(&self, other: &Point<D>) -> (r: Vector<D>)
        requires
            combine_fits(self@, other@, true),
        ensures
            r@ == sub_h(self@, other@),
    {
        let coords = combine(&self.coords, self.w, &other.coords, other.w, true);
        let w = mul_wide(self.w, other.w) as i64;
        let r = Vector { coords, w };
        assert(r@.0 =~= sub_h(self@, other@).0);
        r
    }

    /// The point reached from `self` by moving along `v`.
    pub fn add_vector(&self, v: &Vector<D>) -> (r: Point<D>)
        requires
            combine_fits(self@, v@, false),
        ensures
            r@ == add_h(self@, v@),
    {
        let coords = combine(&self.coords, self.w, &v.coords, v.w, false);
        let w = mul_wide(self.w, v.w) as i64;
        let r = Point { coords, w };
        assert(r@.0 =~= add_h(self@, v@).0);
        r
    }
}

impl<const D: usize> Vector<D> {
    /// Whether the vector has a positive denominator.
    pub open spec fn wf(&self) -> bool {
        self.w > 0
    }

    /// The vector with numerators `coords` over denominator `w`.
    pub fn new(coords: [i64; D], w: i64) -> (r: Vector<D>)
        requires
            w > 0,
        ensures
            r.wf(),
            r.coords == coords,
            r.w == w,
    {
        Vector { coords, w }
    }

    /// Whether the magnitude of the vector is zero.
    pub fn is_zero(&self) -> (r: bool)
        ensures
            r == is_zero_h(self@),
    {
        let mut i: usize = 0;
        while i < D
            invariant
                0 <= i <= D,
                forall|k: int| 0 <= k < i ==> self.coords@[k] == 0,
            decreases D - i,
        {
            if self.coords[i] != 0 {
                assert(self@.0[i as int] != 0);
                return false;
            }
            i = i + 1;
        }
        assert(self@.0.len() == D);
        true
    }

    /// The dot product of the numerators of `self` and `other`.
    pub fn dot(&self, other: &Vector<D>) -> (r: i64)
        requires
            dot_fits(self@.0, other@.0),
        ensures
            r == dot(self@.0, other@.0),
    {
        let ghost a = self@.0;
        let ghost b = other@.0;
        assert(a.len() == D);
        let mut acc: i128 = 0;
        let mut i: usize = 0;
        while i < D
            invariant
                0 <= i <= D,
                a == self@.0,
                b == other@.0,
                a.len() == D,
                dot_fits(a, b),
                acc == dot_upto(a, b, i as int),
            decreases D - i,
        {
            assert(in_range(dot_upto(a, b, i as int)));
            let m = mul_wide(self.coords[i], other.coords[i]);
            acc = acc + m;
            i = i + 1;
        }
        assert(in_range(dot_upto(a, b, D as int)));
        acc as i64
    }

    /// The vector pointing the other way.
    pub fn neg(&self) -> (r: Vector<D>)
        requires
            forall|i: int| 0 <= i < D ==> self.coords@[i] != i64::MIN,
        ensures
            r@ == neg_h(self@),
    {
        let mut coords: [i64; D] = self.coords;
        let mut i: usize = 0;
        while i < D
            invariant
                0 <= i <= D,
                forall|i: int| 0 <= i < D ==> self.coords@[i] != i64::MIN,
                forall|k: int| 0 <= k < i ==> coords@[k] == -self.coords@[k],
            decreases D - i,
        {
            coords[i] = -self.coords[i];
            i = i + 1;
        }
        let r = Vector { coords, w: self.w };
        assert(r@.0 =~= neg_h(self@).0);
        r
    }

    /// The vector scaled by the one-dimensional value `t`.
    pub fn scale(&self, t: &Vector<1>) -> (r: Vector<D>)
        requires
            scale_fits(self@, t@),
        ensures
            r@ == scale_h(self@, t@),
    {
        let tn = t.coords[0];
        assert(t@.0[0] == tn);
        let mut coords: [i64; D] = self.coords;
        let mut i: usize = 0;
        while i < D
            invariant
                0 <= i <= D,
                scale_fits(self@, t@),
                t@.0[0] == tn,
                forall|k: int| 0 <= k < i ==> coords@[k] == self.coords@[k] * tn,
            decreases D - i,
        {
            assert(self@.0.len() == D);
            assert(in_range(self@.0[i as int] * t@.0[0]));
            coords[i] = mul_wide(self.coords[i], tn) as i64;
            i = i + 1;
        }
        let w = mul_wide(self.w, t.w) as i64;
        let r = Vector { coords, w };
        assert(r@.0 =~= scale_h(self@, t@).0);
        r
    }
}

/// Whether the numerators `a` and `b` are parallel.
pub fn is_parallel<const D: usize>(a: &[i64; D], b: &[i64; D]) -> (r: bool)
    ensures
        r == parallel(ints(*a), ints(*b)),
{
    let ghost sa = ints(*a);
    let ghost sb = ints(*b);
    assert(sa.len() == D && sb.len() == D);
    let mut i: usize = 0;
    while i < D
        invariant
            0 <= i <= D,
            sa == ints(*a),
            sb == ints(*b),
            sa.len() == D,
            sb.len() == D,
            forall|x: int, y: int| 0 <= x < i && 0 <= y < D ==> sa[x] * sb[y] == sa[y] * sb[x],
        decreases D - i,
    {
        let mut j: usize = 0;
        while j < D
            invariant
                0 <= i < D,
                0 <= j <= D,
                sa == ints(*a),
                sb == ints(*b),
                sa.len() == D,
                sb.len() == D,
                forall|x: int, y: int|
                    0 <= x < i && 0 <= y < D ==> sa[x] * sb[y] == sa[y] * sb[x],
                forall|y: int| 0 <= y < j ==> sa[i as int] * sb[y] == sa[y] * sb[i as int],
            decreases D - j,
        {
            if mul_wide(a[i], b[j]) != mul_wide(a[j], b[i]) {
                assert(sa[i as int] * sb[j as int] != sa[j as int] * sb[i as int]);
                return false;
            }
            j = j + 1;
        }
        i = i + 1;
    }
    true
}

} // verus!
