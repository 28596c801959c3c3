use geometrify::geometrify::{difference, mix_color, Triangle};
use geometrify::raster::Color;
use geometrify::Point;

fn red() -> Color {
    Color { r: 255, g: 0, b: 0, a: 255 }
}

fn blue() -> Color {
    Color { r: 0, g: 0, b: 255, a: 255 }
}

#[test]
fn cross_product_matches_formula() {
    let a = Point { x: 1, y: 2 };
    let b = Point { x: 3, y: 4 };
    assert_eq!(a.cross_product(b), 1 * 4 - 2 * 3);
    let c = Point { x: -5, y: 7 };
    let d = Point { x: 2, y: -3 };
    assert_eq!(c.cross_product(d), (-5) * (-3) - 7 * 2);
}

#[test]
fn containment_simple_triangle() {
    let t = Triangle::new(
        Point { x: 0, y: 0 },
        Point { x: 10, y: 0 },
        Point { x: 0, y: 10 },
    );
    assert!(t.is_inside(Point { x: 1, y: 1 }));
    assert!(!t.is_inside(Point { x: 9, y: 9 }));
    assert!(!t.is_inside(Point { x: -1, y: -1 }));
}

#[test]
fn containment_after_caching_area() {
    let mut t = Triangle::new(
        Point { x: 0, y: 0 },
        Point { x: 10, y: 0 },
        Point { x: 0, y: 10 },
    );
    t.cache_double_area();
    assert!(t.is_inside(Point { x: 1, y: 1 }));
    assert!(t.is_inside(Point { x: 0, y: 0 }));
    assert!(t.is_inside(Point { x: 5, y: 5 }));
    assert!(!t.is_inside(Point { x: 9, y: 9 }));
    assert!(!t.is_inside(Point { x: 11, y: 0 }));
}

#[test]
fn containment_reversed_orientation() {
    // The same triangle with its vertices in clockwise order (negative
    // double area) must contain the same points.
    let t = Triangle::new(
        Point { x: 0, y: 0 },
        Point { x: 0, y: 10 },
        Point { x: 10, y: 0 },
    );
    assert!(t.is_inside(Point { x: 1, y: 1 }));
    assert!(!t.is_inside(Point { x: 9, y: 9 }));
    assert!(!t.is_inside(Point { x: -1, y: -1 }));
}

#[test]
fn degenerate_triangle_contains_nothing() {
    let t = Triangle::new(
        Point { x: 0, y: 0 },
        Point { x: 5, y: 5 },
        Point { x: 10, y: 10 },
    );
    for x in -2i32..13 {
        for y in -2i32..13 {
            assert!(!t.is_inside(Point { x, y }));
        }
    }
    let bb = t.bounding_box();
    assert_eq!(bb.top_left, Point { x: 0, y: 0 });
    assert_eq!(bb.bottom_right, Point { x: 10, y: 10 });
}

#[test]
fn bounding_box_is_componentwise_min_max() {
    let t = Triangle::new(
        Point { x: 7, y: -2 },
        Point { x: -3, y: 9 },
        Point { x: 4, y: 1 },
    );
    let bb = t.bounding_box();
    assert_eq!(bb.top_left, Point { x: -3, y: -2 });
    assert_eq!(bb.bottom_right, Point { x: 7, y: 9 });
}

#[test]
fn blend_uses_floor_division() {
    let mixed = mix_color(red(), blue());
    assert_eq!(mixed, Color { r: 127, g: 0, b: 127, a: 255 });
}

#[test]
fn blend_is_symmetric() {
    assert_eq!(mix_color(red(), blue()), mix_color(blue(), red()));
}

#[test]
fn difference_is_channelwise_l1() {
    assert_eq!(difference(red(), blue()), 510);
    assert_eq!(difference(red(), red()), 0);
    let black = Color { r: 0, g: 0, b: 0, a: 0 };
    let white = Color { r: 255, g: 255, b: 255, a: 255 };
    assert_eq!(difference(black, white), 1020);
}

#[test]
fn triangle_color_is_assigned_after_construction() {
    let mut t = Triangle::new(
        Point { x: 0, y: 0 },
        Point { x: 1, y: 0 },
        Point { x: 0, y: 1 },
    );
    assert_eq!(t.get_color(), None);
    t.set_color(red());
    assert_eq!(t.get_color(), Some(red()));
}
