use routeguide::geo::{distance, in_range, Point, Rectangle};

fn pt(latitude: i32, longitude: i32) -> Point {
    Point { latitude, longitude }
}

#[test]
fn in_range_inclusive_box() {
    let r = Rectangle { lo: pt(0, 0), hi: pt(100, 200) };
    assert!(in_range(pt(0, 0), r));
    assert!(in_range(pt(100, 200), r));
    assert!(in_range(pt(50, 120), r));
    assert!(!in_range(pt(101, 120), r));
    assert!(!in_range(pt(50, 201), r));
    assert!(!in_range(pt(-1, 0), r));
}

#[test]
fn in_range_ignores_corner_order() {
    let r = Rectangle { lo: pt(0, 0), hi: pt(100, 200) };
    let swapped = Rectangle { lo: pt(100, 200), hi: pt(0, 0) };
    let mixed = Rectangle { lo: pt(100, 0), hi: pt(0, 200) };
    for p in [pt(0, 0), pt(100, 200), pt(50, 120), pt(101, 120), pt(-3, -4)] {
        assert_eq!(in_range(p, r), in_range(p, swapped));
        assert_eq!(in_range(p, r), in_range(p, mixed));
    }
}

#[test]
fn distance_of_equal_points_is_zero() {
    let p = pt(40_000_000, -70_000_000);
    assert_eq!(distance(p, p), 0);
    assert_eq!(distance(pt(0, 0), pt(0, 0)), 0);
}

#[test]
fn distance_is_symmetric() {
    let pairs = [
        (pt(40_000_000, -70_000_000), pt(35_000_000, -75_000_000)),
        (pt(400_000_000, -740_000_000), pt(340_000_000, -1_180_000_000)),
        (pt(0, 0), pt(0, 1_800_000_000)),
        (pt(900_000_000, 0), pt(-900_000_000, 0)),
        (pt(407_838_351, -746_143_763), pt(408_122_808, -743_999_179)),
    ];
    for (a, b) in pairs {
        assert_eq!(distance(a, b), distance(b, a));
    }
}

#[test]
fn distance_is_deterministic() {
    let a = pt(407_838_351, -746_143_763);
    let b = pt(408_122_808, -743_999_179);
    assert_eq!(distance(a, b), distance(a, b));
}

#[test]
fn distance_one_degree_on_equator() {
    // One degree of longitude on the equator is about 111.19 km.
    let d = distance(pt(0, 0), pt(0, 10_000_000));
    assert!(d >= 111_000 && d <= 111_400, "got {}", d);
}

#[test]
fn distance_pole_to_pole() {
    // Half the circumference of the 6371 km sphere is about 20015 km.
    let d = distance(pt(900_000_000, 0), pt(-900_000_000, 0));
    assert!(d >= 20_014_000 && d <= 20_016_000, "got {}", d);
}

#[test]
fn distance_across_new_york_area() {
    // Two points about 18.3 km apart.
    let d = distance(pt(407_838_351, -746_143_763), pt(408_122_808, -743_999_179));
    assert!(d >= 18_200 && d <= 18_500, "got {}", d);
}
