use vstd::prelude::*;

use crate::line::{
    coincident_h, point_from_line_h, point_to_line_h, reverse_h, vector_from_line_h, Line,
};
use crate::math::{
    dot, dot_upto, is_zero_h, parallel, same_value, sub_h, Homogeneous, Point,
};

verus! {

/// A sum of squares is positive once one of its terms is not zero.
proof fn lemma_dot_upto_self(d: Seq<int>, n: int)
    requires
        0 <= n <= d.len(),
    ensures
        dot_upto(d, d, n) >= 0,
        (exists|k: int| 0 <= k < n && d[k] != 0) ==> dot_upto(d, d, n) > 0,
    decreases n,
{
    if n > 0 {
        lemma_dot_upto_self(d, n - 1);
        let x = d[n - 1];
        assert(x * x >= 0) by (nonlinear_arith);
        if x != 0 {
            assert(x * x > 0) by (nonlinear_arith)
                requires
                    x != 0,
            ;
        }
        if exists|k: int| 0 <= k < n && d[k] != 0 {
            let k = choose|k: int| 0 <= k < n && d[k] != 0;
            if k < n - 1 {
                assert(dot_upto(d, d, n - 1) > 0);
            }
        }
    }
}

/// The squared magnitude of a vector that is not zero is positive.
pub proof fn lemma_dot_self_positive(v: Homogeneous)
    requires
        !is_zero_h(v),
    ensures
        dot(v.0, v.0) > 0,
{
    let k = choose|k: int| 0 <= k < v.0.len() && v.0[k] != 0;
    lemma_dot_upto_self(v.0, v.0.len() as int);
}

/// Scaling one side of a dot product scales the product.
proof fn lemma_dot_upto_scaled(a: Seq<int>, b: Seq<int>, c: Seq<int>, k: int, n: int)
    requires
        0 <= n <= a.len(),
        n <= b.len(),
        n <= c.len(),
        forall|i: int| 0 <= i < n ==> a[i] == k * b[i],
    ensures
        dot_upto(a, c, n) == k * dot_upto(b, c, n),
    decreases n,
{
    if n > 0 {
        lemma_dot_upto_scaled(a, b, c, k, n - 1);
        let x = b[n - 1];
        let y = c[n - 1];
        let p = dot_upto(b, c, n - 1);
        assert(a[n - 1] == k * x);
        assert(k * p + (k * x) * y == k * (p + x * y)) by (nonlinear_arith);
    }
}

/// Converting a line coordinate into a point and that point back into a line
/// coordinate gives the coordinate that was started from, exactly.
pub proof fn lemma_line_coords_round_trip<const D: usize>(l: Line<D>, t: Point<1>)
    requires
        l.wf(),
        t.wf(),
    ensures
        same_value(point_to_line_h(l@, point_from_line_h(l@, t@)), t@),
{
    let o = l@.0;
    let dir = l@.1;
    let n = t@.0[0];
    let tw = t@.1;
    let ow = o.1;
    let dw = dir.1;
    let u = vector_from_line_h(l@, t@);
    let p = point_from_line_h(l@, t@);
    let v = sub_h(p, o);
    let k = n * (ow * ow);
    assert forall|i: int| 0 <= i < v.0.len() implies v.0[i] == k * dir.0[i] by {
        let oi = o.0[i];
        let di = dir.0[i];
        assert(u.0[i] == di * n);
        assert(p.0[i] == oi * (dw * tw) + (di * n) * ow);
        assert(p.1 == ow * (dw * tw));
        assert(v.0[i] == p.0[i] * ow - oi * p.1);
        assert((oi * (dw * tw) + (di * n) * ow) * ow - oi * (ow * (dw * tw)) == (n * (ow * ow))
            * di) by (nonlinear_arith);
    }
    lemma_dot_upto_scaled(v.0, dir.0, dir.0, k, D as int);
    let s = dot(dir.0, dir.0);
    let r = point_to_line_h(l@, p);
    assert(r.0[0] == (k * s) * dw);
    assert(r.1 == (ow * (dw * tw)) * ow * s);
    assert(((k * s) * dw) * tw == n * ((ow * (dw * tw)) * ow * s)) by (nonlinear_arith)
        requires
            k == n * (ow * ow),
    ;
}

/// Parallelism of two tuples does not depend on their order.
proof fn lemma_parallel_symmetric(a: Seq<int>, b: Seq<int>)
    requires
        a.len() == b.len(),
    ensures
        parallel(a, b) == parallel(b, a),
{
    assert forall|i: int, j: int| 0 <= i < a.len() && 0 <= j < a.len() implies (a[i] * b[j] == a[j]
        * b[i]) == (b[i] * a[j] == b[j] * a[i]) by {
        assert(a[i] * b[j] == b[j] * a[i]) by (nonlinear_arith);
        assert(a[j] * b[i] == b[i] * a[j]) by (nonlinear_arith);
    }
    if parallel(a, b) {
        assert forall|i: int, j: int| 0 <= i < b.len() && 0 <= j < b.len() implies #[trigger] (b[i]
            * a[j]) == #[trigger] (b[j] * a[i]) by {
            assert(a[i] * b[j] == a[j] * b[i]);
        }
    }
    if parallel(b, a) {
        assert forall|i: int, j: int| 0 <= i < a.len() && 0 <= j < a.len() implies #[trigger] (a[i]
            * b[j]) == #[trigger] (a[j] * b[i]) by {
            assert(b[i] * a[j] == b[j] * a[i]);
        }
    }
}

/// Negating one tuple keeps it parallel to another.
proof fn lemma_parallel_negated(a: Seq<int>, b: Seq<int>, c: Seq<int>)
    requires
        a.len() == b.len(),
        forall|i: int| 0 <= i < a.len() ==> a[i] == -b[i],
    ensures
        parallel(a, c) == parallel(b, c),
{
    assert forall|i: int, j: int| 0 <= i < a.len() && 0 <= j < a.len() implies (a[i] * c[j] == a[j]
        * c[i]) == (b[i] * c[j] == b[j] * c[i]) by {
        let (x, y) = (b[i], b[j]);
        assert(a[i] == -x && a[j] == -y);
        assert((-x) * c[j] == -(x * c[j])) by (nonlinear_arith);
        assert((-y) * c[i] == -(y * c[i])) by (nonlinear_arith);
    }
    if parallel(a, c) {
        assert forall|i: int, j: int| 0 <= i < b.len() && 0 <= j < b.len() implies #[trigger] (b[i]
            * c[j]) == #[trigger] (b[j] * c[i]) by {
            assert(a[i] * c[j] == a[j] * c[i]);
        }
    }
    if parallel(b, c) {
        assert forall|i: int, j: int| 0 <= i < a.len() && 0 <= j < a.len() implies #[trigger] (a[i]
            * c[j]) == #[trigger] (a[j] * c[i]) by {
            assert(b[i] * c[j] == b[j] * c[i]);
        }
    }
}

/// Parallelism passes through a tuple that is not zero.
proof fn lemma_parallel_transitive(u: Seq<int>, a: Seq<int>, b: Seq<int>)
    requires
        u.len() == a.len(),
        a.len() == b.len(),
        !is_zero_h((a, 1)),
        parallel(u, a),
        parallel(a, b),
    ensures
        parallel(u, b),
{
    let k = choose|k: int| 0 <= k < a.len() && a[k] != 0;
    let ak = a[k];
    assert forall|i: int, j: int| 0 <= i < u.len() && 0 <= j < u.len() implies #[trigger] (u[i]
        * b[j]) == #[trigger] (u[j] * b[i]) by {
        assert(u[i] * a[k] == u[k] * a[i]);
        assert(u[j] * a[k] == u[k] * a[j]);
        assert(a[k] * b[i] == a[i] * b[k]);
        assert(a[k] * b[j] == a[j] * b[k]);
        let x = u[i] * b[j];
        let y = u[j] * b[i];
        assert(x * (ak * ak) == (u[i] * a[k]) * (a[k] * b[j])) by (nonlinear_arith)
            requires
                x == u[i] * b[j],
                ak == a[k],
        ;
        assert(y * (ak * ak) == (u[j] * a[k]) * (a[k] * b[i])) by (nonlinear_arith)
            requires
                y == u[j] * b[i],
                ak == a[k],
        ;
        assert((u[k] * a[i]) * (a[j] * b[k]) == (u[k] * a[j]) * (a[i] * b[k])) by (nonlinear_arith);
        assert(x == y) by (nonlinear_arith)
            requires
                x * (ak * ak) == y * (ak * ak),
                ak != 0,
        ;
    }
}

/// Whether two lines coincide does not depend on which one is asked.
pub proof fn lemma_coincidence_symmetric<const D: usize>(l: Line<D>, m: Line<D>)
    requires
        l.wf(),
        m.wf(),
    ensures
        coincident_h(l@, m@) == coincident_h(m@, l@),
{
    let u = sub_h(m@.0, l@.0).0;
    let w = sub_h(l@.0, m@.0).0;
    let dl = l@.1.0;
    let dm = m@.1.0;
    assert forall|i: int| 0 <= i < w.len() implies w[i] == -u[i] by {}
    lemma_parallel_negated(w, u, dl);
    lemma_parallel_negated(w, u, dm);
    lemma_parallel_symmetric(dl, dm);
    assert(!is_zero_h((dl, 1))) by {
        let k = choose|k: int| 0 <= k < dl.len() && dl[k] != 0;
        assert((dl, 1int).0[k] != 0);
    }
    assert(!is_zero_h((dm, 1))) by {
        let k = choose|k: int| 0 <= k < dm.len() && dm[k] != 0;
        assert((dm, 1int).0[k] != 0);
    }
    if coincident_h(l@, m@) {
        lemma_parallel_transitive(u, dl, dm);
        lemma_parallel_negated(w, u, dm);
    }
    if coincident_h(m@, l@) {
        lemma_parallel_negated(w, u, dm);
        lemma_parallel_transitive(w, dm, dl);
        lemma_parallel_negated(u, w, dl);
        assert forall|i: int| 0 <= i < u.len() implies u[i] == -w[i] by {}
    }
}

/// Every line coincides with itself and with its reversal.
pub proof fn lemma_coincidence_reflexive<const D: usize>(l: Line<D>)
    requires
        l.wf(),
    ensures
        coincident_h(l@, l@),
        coincident_h(l@, reverse_h(l@)),
        coincident_h(reverse_h(l@), l@),
{
    let z = sub_h(l@.0, l@.0).0;
    let d = l@.1.0;
    let n = reverse_h(l@).1.0;
    assert forall|i: int| 0 <= i < z.len() implies z[i] == 0 by {}
    assert forall|i: int, j: int| 0 <= i < z.len() && 0 <= j < z.len() implies #[trigger] (z[i]
        * d[j]) == #[trigger] (z[j] * d[i]) && #[trigger] (z[i] * n[j]) == #[trigger] (z[j]
        * n[i]) by {
        assert(z[i] == 0 && z[j] == 0);
    }
    assert forall|i: int, j: int| 0 <= i < d.len() && 0 <= j < d.len() implies #[trigger] (d[i]
        * d[j]) == #[trigger] (d[j] * d[i]) by {
        assert(d[i] * d[j] == d[j] * d[i]) by (nonlinear_arith);
    }
    assert forall|i: int| 0 <= i < n.len() implies n[i] == -d[i] by {}
    lemma_parallel_symmetric(d, d);
    lemma_parallel_negated(n, d, d);
    lemma_parallel_symmetric(n, d);
    assert(sub_h(reverse_h(l@).0, l@.0).0 == z);
}

} // verus!
