use ray_tracer::shapes::cube::{check_axis, local_intersect, local_normal_at, Axis};
use ray_tracer::key::{from_bits, to_bits};

const EPSILON: f64 = 0.00001;

/// The order key of a real number.
fn key(t: f64) -> i64 {
    from_bits(t.to_bits()).expect("a number")
}

/// The real number that an order key stands for.
fn number(key: i64) -> f64 {
    f64::from_bits(to_bits(key).expect("the key of a number"))
}

/// Where a ray crosses the two faces of the unit cube across one axis, in the
/// order it meets them.
fn crossings(origin: f64, direction: f64) -> (i64, i64) {
    let tmin_numerator = -1. - origin;
    let tmax_numerator = 1. - origin;
    if direction.abs() >= EPSILON {
        check_axis(key(tmin_numerator / direction), key(tmax_numerator / direction))
    } else {
        check_axis(key(tmin_numerator * f64::INFINITY), key(tmax_numerator * f64::INFINITY))
    }
}

/// The distances at which a ray enters and leaves the unit cube.
fn cube_hits(origin: [f64; 3], direction: [f64; 3]) -> Option<(f64, f64)> {
    let hits = local_intersect(
        crossings(origin[0], direction[0]),
        crossings(origin[1], direction[1]),
        crossings(origin[2], direction[2]),
    );
    hits.map(|(entry, exit)| (number(entry), number(exit)))
}

/// The normal of the unit cube at a point of its surface.
fn cube_normal(point: [f64; 3]) -> [f64; 3] {
    match local_normal_at(key(point[0].abs()), key(point[1].abs()), key(point[2].abs())) {
        Axis::X => [point[0], 0., 0.],
        Axis::Y => [0., point[1], 0.],
        Axis::Z => [0., 0., point[2]],
    }
}

#[test]
fn a_ray_intersects_a_cube() {
    let examples = vec![
        ([5., 0.5, 0.], [-1., 0., 0.], 4., 6.),
        ([-5., 0.5, 0.], [1., 0., 0.], 4., 6.),
        ([0.5, 5., 0.], [0., -1., 0.], 4., 6.),
        ([0.5, -5., 0.], [0., 1., 0.], 4., 6.),
        ([0.5, 0., 5.], [0., 0., -1.], 4., 6.),
        ([0.5, 0., -5.], [0., 0., 1.], 4., 6.),
        ([0., 0.5, 0.], [0., 0., 1.], -1., 1.),
    ];

    for (origin, direction, t1, t2) in examples.into_iter() {
        let xs = cube_hits(origin, direction);

        assert_eq!(xs.unwrap().0, t1);
        assert_eq!(xs.unwrap().1, t2);
    }
}

#[test]
fn a_ray_misses_a_cube() {
    let examples = vec![
        ([-2., 0., 0.], [0.2673, 0.5345, 0.8018]),
        ([0., -2., 0.], [0.8018, 0.2673, 0.5345]),
        ([0., 0., -2.], [0.5345, 0.8018, 0.2673]),
        ([2., 0., 2.], [0., 0., -1.]),
        ([0., 2., 2.], [0., -1., 0.]),
        ([2., 2., 0.], [-1., 0., 0.]),
    ];

    for (origin, direction) in examples.into_iter() {
        let xs = cube_hits(origin, direction);

        assert!(xs.is_none());
    }
}

#[test]
fn the_normal_on_the_surface_of_a_cube() {
    let examples = vec![
        ([1., 0.5, -0.8], [1., 0., 0.]),
        ([-1., -0.2, 0.9], [-1., 0., 0.]),
        ([-0.4, 1., -0.1], [0., 1., 0.]),
        ([0.3, -1., -0.7], [0., -1., 0.]),
        ([-0.6, 0.3, 1.0], [0., 0., 1.]),
        ([0.4, 0.4, -1.0], [0., 0., -1.]),
        ([1., 1., 1.0], [1., 0., 0.]),
        ([-1., -1., -1.0], [-1., 0., 0.]),
    ];

    for (point, normal) in examples.into_iter() {
        let c_normal = cube_normal(point);

        assert_eq!(c_normal, normal);
    }
}

#[test]
fn the_crossings_of_a_slab_come_in_the_order_the_ray_meets_them() {
    assert_eq!(check_axis(4, 6), (4, 6));
    assert_eq!(check_axis(6, 4), (4, 6));
    assert_eq!(check_axis(-1, -1), (-1, -1));
    assert_eq!(check_axis(i64::MAX, i64::MIN), (i64::MIN, i64::MAX));
}

#[test]
fn the_cube_is_entered_last_and_left_first() {
    assert_eq!(local_intersect((1, 9), (2, 8), (3, 7)), Some((3, 7)));
    assert_eq!(local_intersect((3, 7), (1, 9), (2, 8)), Some((3, 7)));
    assert_eq!(local_intersect((2, 8), (3, 7), (1, 9)), Some((3, 7)));
    assert_eq!(local_intersect((1, 5), (5, 9), (4, 6)), Some((5, 5)));
    assert_eq!(local_intersect((1, 4), (5, 9), (0, 9)), None);
    assert_eq!(local_intersect((0, 9), (0, 9), (10, 11)), None);
}

#[test]
fn the_earlier_axis_wins_among_equally_far_faces() {
    assert_eq!(local_normal_at(3, 2, 1), Axis::X);
    assert_eq!(local_normal_at(1, 3, 2), Axis::Y);
    assert_eq!(local_normal_at(1, 2, 3), Axis::Z);
    assert_eq!(local_normal_at(3, 3, 1), Axis::X);
    assert_eq!(local_normal_at(3, 1, 3), Axis::X);
    assert_eq!(local_normal_at(1, 3, 3), Axis::Y);
    assert_eq!(local_normal_at(0, 0, 0), Axis::X);
}
