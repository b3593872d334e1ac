use fj_kernel::{
    surface_surface, union, Curve, CurveFaceIntersectionList, Face, Scalar, Solid, Surface,
    UnionError,
};

fn whole(n: i64) -> Scalar {
    Scalar::from_int(n)
}

#[test]
fn distinct() {
    let a = Solid::cube_from_edge_length(whole(1)).translate([whole(-1), whole(-1), whole(-1)]);
    let b = Solid::cube_from_edge_length(whole(1)).translate([whole(1), whole(1), whole(1)]);

    let mut all_faces = Vec::new();
    all_faces.extend(a.faces().iter().cloned());
    all_faces.extend(b.faces().iter().cloned());

    let union = union(a, b).unwrap();

    assert_eq!(union.faces().len(), 12);
    assert_eq!(union, Solid::from_faces(all_faces));
}

#[test]
fn a_contains_b() {
    let a = Solid::cube_from_edge_length(whole(2));
    let b = Solid::cube_from_edge_length(whole(1));

    let union = union(a.clone(), b).unwrap();

    assert_eq!(union, a);
}

#[test]
fn b_contains_a() {
    let a = Solid::cube_from_edge_length(whole(1));
    let b = Solid::cube_from_edge_length(whole(2));

    let union = union(a, b.clone()).unwrap();

    assert_eq!(union, b);
    assert_eq!(union.faces().len(), 6);
}

#[test]
fn union_is_deterministic() {
    let make = || {
        (
            Solid::cube_from_edge_length(whole(1)).translate([whole(-1), whole(-1), whole(-1)]),
            Solid::cube_from_edge_length(whole(1)).translate([whole(1), whole(1), whole(1)]),
        )
    };
    let (a1, b1) = make();
    let (a2, b2) = make();
    assert_eq!(union(a1, b1).unwrap(), union(a2, b2).unwrap());
}

#[test]
fn partial_overlap_is_unsupported() {
    let a = Solid::cube_from_edge_length(whole(2));
    let b = Solid::cube_from_edge_length(whole(2)).translate([whole(1), whole(1), whole(1)]);
    assert_eq!(union(a, b), Err(UnionError::UnsupportedOverlap));
}

#[test]
fn cube_has_six_faces() {
    let c = Solid::cube_from_edge_length(whole(3));
    assert_eq!(c.faces().len(), 6);
    let h = Scalar::new(3, 2);
    let top = Face {
        surface: Surface { axis: 2, offset: h },
        min_u: Scalar::new(-3, 2),
        max_u: h,
        min_v: Scalar::new(-3, 2),
        max_v: h,
    };
    assert!(c.contains(&top));
}

#[test]
fn from_faces_deduplicates() {
    let c = Solid::cube_from_edge_length(whole(1));
    let mut faces = c.faces().clone();
    faces.extend(c.faces().iter().rev().cloned());
    let s = Solid::from_faces(faces);
    assert_eq!(s.faces().len(), 6);
    assert_eq!(s, c);
}

#[test]
fn translate_moves_faces() {
    let c = Solid::cube_from_edge_length(whole(2)).translate([whole(1), whole(0), whole(0)]);
    let right = Face {
        surface: Surface { axis: 0, offset: Scalar::new(4, 2) },
        min_u: Scalar::new(-2, 2),
        max_u: Scalar::new(2, 2),
        min_v: Scalar::new(-2, 2),
        max_v: Scalar::new(2, 2),
    };
    assert!(c.contains(&right));
}

#[test]
fn parallel_planes_do_not_intersect() {
    let a = Surface { axis: 1, offset: whole(0) };
    let b = Surface { axis: 1, offset: whole(5) };
    assert_eq!(surface_surface(&a, &b), None);
    assert_eq!(surface_surface(&a, &a), None);
}

#[test]
fn perpendicular_planes_intersect() {
    let a = Surface { axis: 0, offset: whole(1) };
    let b = Surface { axis: 2, offset: whole(3) };
    let (ca, cb) = surface_surface(&a, &b).unwrap();
    assert_eq!(ca, Curve { axis: 2, offset: whole(3) });
    assert_eq!(cb, Curve { axis: 0, offset: whole(1) });
}

#[test]
fn curve_face_intersection_list() {
    let face = Face {
        surface: Surface { axis: 2, offset: whole(0) },
        min_u: whole(-1),
        max_u: whole(1),
        min_v: whole(-2),
        max_v: whole(2),
    };
    let inside = CurveFaceIntersectionList::compute(&Curve { axis: 0, offset: whole(1) }, &face);
    assert!(!inside.is_empty());
    assert_eq!(inside.intervals, vec![(whole(-2), whole(2))]);
    let outside = CurveFaceIntersectionList::compute(&Curve { axis: 1, offset: whole(3) }, &face);
    assert!(outside.is_empty());
}
