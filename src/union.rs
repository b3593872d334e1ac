use vstd::prelude::*;

use crate::intersection::{
    curve_crosses, surface_surface, surfaces_intersect, Curve, CurveFaceIntersectionList,
};
use crate::objects::{insert_unique, Face, Solid};

verus! {

/// Why a union could not be computed.
#[derive(Clone, Copy, Debug, PartialEq, Eq)]
pub enum UnionError {
    /// A pair of faces is cut by the same curve: the faces would have to be
    /// split along it, which is not supported.
    UnsupportedOverlap,
}

/// Whether `fa`'s curve of intersection with `fb`'s plane runs through `fa`.
pub open spec fn crosses_a(fa: Face, fb: Face) -> bool {
    curve_crosses(fa, Curve { axis: fb.surface.axis, offset: fb.surface.offset })
}

/// The faces that the pair `(fa, fb)` contributes to the union. A pair whose
/// planes do not intersect contributes nothing; a pair cut on both sides is
/// unsupported and contributes nothing either.
pub open spec fn pair_kept(fa: Face, fb: Face) -> Set<Face> {
    if !surfaces_intersect(fa.surface, fb.surface) {
        Set::empty()
    } else {
        let ca = crosses_a(fa, fb);
        let cb = crosses_a(fb, fa);
        if ca && !cb {
            set![fa]
        } else if !ca && cb {
            set![fb]
        } else if !ca && !cb {
            set![fa, fb]
        } else {
            Set::empty()
        }
    }
}

/// Whether both faces of the pair are cut by their common curve.
pub open spec fn pair_unsupported(fa: Face, fb: Face) -> bool {
    surfaces_intersect(fa.surface, fb.surface) && crosses_a(fa, fb) && crosses_a(fb, fa)
}

/// The faces of the union of solids with face sets `a` and `b`.
pub open spec fn union_faces(a: Set<Face>, b: Set<Face>) -> Set<Face> {
    Set::new(
        |f: Face|
            exists|fa: Face, fb: Face|
                a.contains(fa) && b.contains(fb) && #[trigger] pair_kept(fa, fb).contains(f),
    )
}

/// Whether some pair of faces of `a` and `b` is unsupported.
pub open spec fn union_unsupported(a: Set<Face>, b: Set<Face>) -> bool {
    exists|fa: Face, fb: Face|
        a.contains(fa) && b.contains(fb) && #[trigger] pair_unsupported(fa, fb)
}

/// Whether the pair `(x, y)` comes before `(i, j)` in row-major order.
spec fn before(x: int, y: int, i: int, j: int) -> bool {
    x < i || (x == i && y < j)
}

/// The faces kept by the pairs that come before `(i, j)`.
spec fn kept_before(sa: Seq<Face>, sb: Seq<Face>, i: int, j: int) -> Set<Face> {
    Set::new(
        |f: Face|
            exists|x: int, y: int|
                0 <= x < sa.len() && 0 <= y < sb.len() && before(x, y, i, j)
                    && #[trigger] pair_kept(sa[x], sb[y]).contains(f),
    )
}

proof fn lemma_kept_step(sa: Seq<Face>, sb: Seq<Face>, i: int, j: int)
    requires
        0 <= i < sa.len(),
        0 <= j < sb.len(),
    ensures
        kept_before(sa, sb, i, j + 1) == kept_before(sa, sb, i, j).union(pair_kept(sa[i], sb[j])),
{
    assert forall|f: Face|
        kept_before(sa, sb, i, j + 1).contains(f) implies kept_before(sa, sb, i, j).union(
            pair_kept(sa[i], sb[j]),
        ).contains(f) by {
        let (x, y) = choose|x: int, y: int|
            0 <= x < sa.len() && 0 <= y < sb.len() && before(x, y, i, j + 1)
                && #[trigger] pair_kept(sa[x], sb[y]).contains(f);
        if !(x == i && y == j) {
            assert(before(x, y, i, j));
        }
    }
    assert forall|f: Face|
        kept_before(sa, sb, i, j).union(pair_kept(sa[i], sb[j])).contains(f) implies kept_before(
            sa,
            sb,
            i,
            j + 1,
        ).contains(f) by {
        if pair_kept(sa[i], sb[j]).contains(f) {
            assert(before(i, j, i, j + 1));
        } else {
            let (x, y) = choose|x: int, y: int|
                0 <= x < sa.len() && 0 <= y < sb.len() && before(x, y, i, j)
                    && #[trigger] pair_kept(sa[x], sb[y]).contains(f);
            assert(before(x, y, i, j + 1));
        }
    }
    assert(kept_before(sa, sb, i, j + 1) =~= kept_before(sa, sb, i, j).union(
        pair_kept(sa[i], sb[j]),
    ));
}

proof fn lemma_kept_row(sa: Seq<Face>, sb: Seq<Face>, i: int)
    ensures
        kept_before(sa, sb, i, sb.len() as int) == kept_before(sa, sb, i + 1, 0),
{
    assert forall|f: Face|
        kept_before(sa, sb, i, sb.len() as int).contains(f) == kept_before(
            sa,
            sb,
            i + 1,
            0,
        ).contains(f) by {
        if kept_before(sa, sb, i, sb.len() as int).contains(f) {
            let (x, y) = choose|x: int, y: int|
                0 <= x < sa.len() && 0 <= y < sb.len() && before(x, y, i, sb.len() as int)
                    && #[trigger] pair_kept(sa[x], sb[y]).contains(f);
            assert(before(x, y, i + 1, 0));
        }
        if kept_before(sa, sb, i + 1, 0).contains(f) {
            let (x, y) = choose|x: int, y: int|
                0 <= x < sa.len() && 0 <= y < sb.len() && before(x, y, i + 1, 0)
                    && #[trigger] pair_kept(sa[x], sb[y]).contains(f);
            assert(before(x, y, i, sb.len() as int));
        }
    }
    assert(kept_before(sa, sb, i, sb.len() as int) =~= kept_before(sa, sb, i + 1, 0));
}

proof fn lemma_kept_all(sa: Seq<Face>, sb: Seq<Face>)
    ensures
        kept_before(sa, sb, sa.len() as int, 0) == union_faces(sa.to_set(), sb.to_set()),
{
    let n = sa.len() as int;
    assert forall|f: Face|
        kept_before(sa, sb, n, 0).contains(f) == union_faces(sa.to_set(), sb.to_set()).contains(
            f,
        ) by {
        if kept_before(sa, sb, n, 0).contains(f) {
            let (x, y) = choose|x: int, y: int|
                0 <= x < sa.len() && 0 <= y < sb.len() && before(x, y, n, 0)
                    && #[trigger] pair_kept(sa[x], sb[y]).contains(f);
            assert(sa.to_set().contains(sa[x]) && sb.to_set().contains(sb[y]));
        }
        if union_faces(sa.to_set(), sb.to_set()).contains(f) {
            let (fa, fb) = choose|fa: Face, fb: Face|
                sa.to_set().contains(fa) && sb.to_set().contains(fb) && #[trigger] pair_kept(
                    fa,
                    fb,
                ).contains(f);
            let x = choose|x: int| 0 <= x < sa.len() && sa[x] == fa;
            let y = choose|y: int| 0 <= y < sb.len() && sb[y] == fb;
            assert(before(x, y, n, 0));
        }
    }
    assert(kept_before(sa, sb, n, 0) =~= union_faces(sa.to_set(), sb.to_set()));
}

/// Computes the solid that is the union of the two provided solids.
///
/// Each pair of a face of `a` and a face of `b` is looked at on its own: the
/// curve in which their planes meet is intersected with both faces, and the
/// faces that the curve does not cut on both sides are kept whole. Pairs of
/// parallel planes contribute nothing.
pub fn union(a: Solid, b: Solid) -> (r: Result<Solid, UnionError>)
    requires
        forall|f: Face| #[trigger] a@.contains(f) ==> f.surface.axis < 3,
        forall|f: Face| #[trigger] b@.contains(f) ==> f.surface.axis < 3,
    ensures
        r is Err <==> union_unsupported(a@, b@),
        r is Err ==> r->Err_0 == UnionError::UnsupportedOverlap,
        r is Ok ==> r->Ok_0@ == union_faces(a@, b@),
{
    let fa_all = a.faces();
    let fb_all = b.faces();
    let ghost sa = fa_all@;
    let ghost sb = fb_all@;
    let mut faces: Vec<Face> = Vec::new();
    let mut i: usize = 0;
    while i < fa_all.len()
        invariant
            0 <= i <= sa.len(),
            sa == fa_all@,
            sb == fb_all@,
            sa.to_set() == a@,
            sb.to_set() == b@,
            forall|f: Face| #[trigger] a@.contains(f) ==> f.surface.axis < 3,
            forall|f: Face| #[trigger] b@.contains(f) ==> f.surface.axis < 3,
            faces@.no_duplicates(),
            faces@.to_set() == kept_before(sa, sb, i as int, 0),
            forall|x: int, y: int|
                0 <= x < i && 0 <= y < sb.len() ==> !#[trigger] pair_unsupported(sa[x], sb[y]),
        decreases sa.len() - i,
    {
        let fa = fa_all[i];
        assert(a@.contains(fa)) by {
            assert(sa[i as int] == fa);
        }
        let mut j: usize = 0;
        while j < fb_all.len()
            invariant
                0 <= i < sa.len(),
                0 <= j <= sb.len(),
                fa == sa[i as int],
                sa == fa_all@,
                sb == fb_all@,
                sa.to_set() == a@,
                sb.to_set() == b@,
                fa.surface.axis < 3,
                forall|f: Face| #[trigger] b@.contains(f) ==> f.surface.axis < 3,
                faces@.no_duplicates(),
                faces@.to_set() == kept_before(sa, sb, i as int, j as int),
                forall|x: int, y: int|
                    0 <= x < i && 0 <= y < sb.len() ==> !#[trigger] pair_unsupported(
                        sa[x],
                        sb[y],
                    ),
                forall|y: int| 0 <= y < j ==> !#[trigger] pair_unsupported(sa[i as int], sb[y]),
            decreases sb.len() - j,
        {
            let fb = fb_all[j];
            assert(b@.contains(fb)) by {
                assert(sb[j as int] == fb);
            }
            proof {
                lemma_kept_step(sa, sb, i as int, j as int);
            }
            let ghost prev = faces@.to_set();
            match surface_surface(&fa.surface, &fb.surface) {
                None => {
                    assert(prev.union(pair_kept(fa, fb)) =~= prev);
                },
                Some((curve_a, curve_b)) => {
                    let intersections_a = CurveFaceIntersectionList::compute(&curve_a, &fa);
                    let intersections_b = CurveFaceIntersectionList::compute(&curve_b, &fb);
                    let empty_a = intersections_a.is_empty();
                    let empty_b = intersections_b.is_empty();
                    if !empty_a && empty_b {
                        insert_unique(&mut faces, fa);
                        assert(prev.union(pair_kept(fa, fb)) =~= prev.insert(fa));
                    } else if empty_a && !empty_b {
                        insert_unique(&mut faces, fb);
                        assert(prev.union(pair_kept(fa, fb)) =~= prev.insert(fb));
                    } else if empty_a && empty_b {
                        insert_unique(&mut faces, fa);
                        insert_unique(&mut faces, fb);
                        assert(prev.union(pair_kept(fa, fb)) =~= prev.insert(fa).insert(fb));
                    } else {
                        assert(pair_unsupported(fa, fb));
                        assert(union_unsupported(a@, b@));
                        return Err(UnionError::UnsupportedOverlap);
                    }
                },
            }
            j = j + 1;
        }
        proof {
            lemma_kept_row(sa, sb, i as int);
        }
        i = i + 1;
    }
    proof {
        lemma_kept_all(sa, sb);
        if union_unsupported(a@, b@) {
            let (fa, fb) = choose|fa: Face, fb: Face|
                a@.contains(fa) && b@.contains(fb) && #[trigger] pair_unsupported(fa, fb);
            let x = choose|x: int| 0 <= x < sa.len() && sa[x] == fa;
            let y = choose|y: int| 0 <= y < sb.len() && sb[y] == fb;
            assert(!pair_unsupported(sa[x], sb[y]));
        }
    }
    Ok(Solid::from_faces(faces))
}

/// The union depends on the face sets of its inputs alone: solids with equal
/// face sets give equal results, and fail on the same inputs.
pub proof fn lemma_union_deterministic(a1: Solid, b1: Solid, a2: Solid, b2: Solid)
    requires
        a1@ == a2@,
        b1@ == b2@,
    ensures
        union_faces(a1@, b1@) == union_faces(a2@, b2@),
        union_unsupported(a1@, b1@) == union_unsupported(a2@, b2@),
{
}

} // verus!
