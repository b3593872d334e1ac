use fj_kernel::{Line, LineError, Point, Vector};

fn p2(x: i64, y: i64) -> Point<2> {
    Point::new([x, y], 1)
}

fn value(p: Point<1>) -> f64 {
    p.coords[0] as f64 / p.w as f64
}

#[test]
fn is_coincident_with() {
    let line = Line::from_points([p2(0, 0), p2(1, 0)]).unwrap();

    let a = Line::from_points([p2(0, 0), p2(1, 0)]).unwrap();
    let b = Line::from_points([p2(0, 0), p2(-1, 0)]).unwrap();
    let c = Line::from_points([p2(0, 1), p2(1, 1)]).unwrap();

    assert!(line.is_coincident_with(&a));
    assert!(line.is_coincident_with(&b));
    assert!(!line.is_coincident_with(&c));
}

#[test]
fn convert_point_to_line_coords() {
    let line = Line::from_origin_and_direction(
        Point::new([1, 2, 3], 1),
        Vector::new([2, 3, 5], 1),
    )
    .unwrap();

    for t in [-1, 0, 1, 2] {
        let point = line.point_from_line_coords(Point::new([t], 1));
        let t_result = line.point_to_line_coords(point);

        assert!((value(t_result) - t as f64).abs() <= 1e-8);
    }
}

#[test]
fn round_trip_is_exact_for_fractions() {
    let line = Line::from_origin_and_direction(
        Point::new([1, -2, 7], 3),
        Vector::new([-4, 1, 2], 5),
    )
    .unwrap();
    for (n, d) in [(1, 3), (-7, 2), (0, 9), (22, 7)] {
        let point = line.point_from_line_coords(Point::new([n], d));
        let t = line.point_to_line_coords(point);
        assert_eq!(t.coords[0] as i128 * d as i128, n as i128 * t.w as i128);
    }
}

#[test]
fn zero_direction_fails() {
    let r = Line::from_origin_and_direction(Point::new([1, 2, 3], 1), Vector::new([0, 0, 0], 4));
    assert_eq!(r, Err(LineError::ZeroDirection));
}

#[test]
fn identical_points_fail() {
    let r = Line::from_points([Point::new([1, 2], 1), Point::new([2, 4], 2)]);
    assert_eq!(r, Err(LineError::ZeroDirection));
    let r = Line::from_points([p2(3, 3), p2(3, 3)]);
    assert_eq!(r, Err(LineError::ZeroDirection));
}

#[test]
fn from_points_direction_is_difference() {
    let line = Line::from_points([p2(1, 2), p2(4, 6)]).unwrap();
    assert_eq!(line.origin(), p2(1, 2));
    assert_eq!(line.direction(), Vector::new([3, 4], 1));
}

#[test]
fn coincidence_is_symmetric() {
    let l = Line::from_points([p2(0, 0), p2(2, 2)]).unwrap();
    let m = Line::from_points([p2(1, 1), p2(0, 0)]).unwrap();
    let n = Line::from_points([p2(0, 1), p2(1, 2)]).unwrap();
    assert!(l.is_coincident_with(&m));
    assert!(m.is_coincident_with(&l));
    assert!(!l.is_coincident_with(&n));
    assert!(!n.is_coincident_with(&l));
}

#[test]
fn coincident_with_itself_and_reversal() {
    let l = Line::from_points([p2(3, -1), p2(5, 4)]).unwrap();
    let r = l.reverse();
    assert_eq!(r.origin(), l.origin());
    assert_eq!(r.direction(), Vector::new([-2, -5], 1));
    assert!(l.is_coincident_with(&l));
    assert!(l.is_coincident_with(&r));
    assert!(r.is_coincident_with(&l));
}

#[test]
fn parallel_offset_lines_are_not_coincident() {
    let l = Line::from_points([p2(0, 0), p2(1, 1)]).unwrap();
    let m = Line::from_points([p2(0, 1), p2(1, 2)]).unwrap();
    assert!(!l.is_coincident_with(&m));
}

#[test]
fn line_coords_exact_values() {
    let line = Line::from_origin_and_direction(Point::new([1, 1], 1), Vector::new([2, 0], 1))
        .unwrap();
    // (5, 7) projects onto x = 5, which is origin + 2 * direction
    let t = line.point_to_line_coords(p2(5, 7));
    assert_eq!(t.coords[0] as f64 / t.w as f64, 2.0);
    let v = line.vector_to_line_coords(Vector::new([1, 9], 1));
    assert_eq!(v.coords[0] as f64 / v.w as f64, 0.5);
    let p = line.point_from_line_coords(Point::new([3], 2));
    assert_eq!(p.coords[0] as f64 / p.w as f64, 4.0);
    assert_eq!(p.coords[1] as f64 / p.w as f64, 1.0);
    let d = line.vector_from_line_coords(Vector::new([-3], 1));
    assert_eq!(d.coords[0] as f64 / d.w as f64, -6.0);
    assert_eq!(d.coords[1], 0);
}
