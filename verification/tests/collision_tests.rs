use cavestory::collision::{collides_with, resolve_side, Sides};
use cavestory::geometry::Rect;
use cavestory::level::Slope;
use cavestory::geometry::Vector2;

#[test]
fn overlap_is_symmetric_on_samples() {
    let samples = vec![
        (Rect::new(0, 0, 10, 10), Rect::new(5, 5, 10, 10)),
        (Rect::new(0, 0, 10, 10), Rect::new(20, 20, 3, 3)),
        (Rect::new(-5, -5, 10, 10), Rect::new(0, 0, 1, 1)),
        (Rect::new(0, 0, 16, 16), Rect::new(15, 15, 16, 16)),
    ];
    for (a, b) in samples {
        assert_eq!(collides_with(&a, &b), collides_with(&b, &a));
    }
}

#[test]
fn touching_edges_do_not_overlap() {
    let a = Rect::new(0, 0, 10, 10);
    let b = Rect::new(10, 0, 10, 10);
    assert!(!collides_with(&a, &b));
    assert!(!collides_with(&b, &a));
    let c = Rect::new(0, 10, 10, 10);
    assert!(!collides_with(&a, &c));
}

#[test]
fn strict_overlap_is_detected() {
    let a = Rect::new(0, 0, 10, 10);
    let b = Rect::new(9, 9, 10, 10);
    assert!(collides_with(&a, &b));
}

#[test]
fn falling_box_resolves_to_bottom_contact() {
    // A 16x16 box at (0, 9) that has sunk into a block at (0, 16): the
    // smallest penetration is on the mover's bottom edge.
    let moving = Rect::new(0, 9, 16, 16);
    let block = Rect::new(0, 16, 16, 16);
    assert_eq!(resolve_side(&moving, &block), Sides::Bottom);
}

#[test]
fn sideways_contact_resolves_to_right() {
    // Moving right into a block: the right edge has barely crossed.
    let moving = Rect::new(14, 0, 16, 16);
    let block = Rect::new(29, 0, 16, 16);
    assert_eq!(resolve_side(&moving, &block), Sides::Right);
}

#[test]
fn get_side_reads_edges() {
    let r = Rect::new(3, 4, 10, 20);
    assert_eq!(r.get_side(Sides::Left), 3);
    assert_eq!(r.get_side(Sides::Right), 13);
    assert_eq!(r.get_side(Sides::Top), 4);
    assert_eq!(r.get_side(Sides::Bottom), 24);
    assert_eq!(r.get_side(Sides::NoContact), 0);
}

#[test]
fn slope_overlap_matches_straddle_test() {
    let slope = Slope { from: Vector2(0, 16), to: Vector2(16, 0) };
    let on_ramp = Rect::new(4, 4, 8, 8);
    assert!(slope.collides_with(on_ramp));
    let far_away = Rect::new(100, 100, 8, 8);
    assert!(!slope.collides_with(far_away));
}

#[test]
fn slope_rise_and_run() {
    let slope = Slope { from: Vector2(0, 16), to: Vector2(16, 0) };
    assert_eq!(slope.get_slope(), (-16, 16));
}
