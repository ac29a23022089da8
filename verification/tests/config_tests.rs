use swall_core::config::Rect;

#[test]
fn test_is_inside_boundary_excluded() {
    let r = Rect { x: 0, y: 0, width: 10, height: 10 };
    assert_eq!(r.is_inside(0, 5), false);
    assert_eq!(r.is_inside(5, 5), true);
    assert_eq!(r.is_inside(10, 5), false);
}

#[test]
fn test_is_inside_vertical_boundary() {
    let r = Rect { x: 0, y: 0, width: 10, height: 10 };
    assert_eq!(r.is_inside(5, 0), false);
    assert_eq!(r.is_inside(5, 10), false);
    assert_eq!(r.is_inside(9, 9), true);
    assert_eq!(r.is_inside(1, 1), true);
}

#[test]
fn test_is_inside_offset_rect() {
    let r = Rect { x: 100, y: 200, width: 50, height: 25 };
    assert_eq!(r.is_inside(100, 210), false);
    assert_eq!(r.is_inside(101, 201), true);
    assert_eq!(r.is_inside(149, 224), true);
    assert_eq!(r.is_inside(150, 210), false);
    assert_eq!(r.is_inside(125, 225), false);
}

#[test]
fn test_is_inside_no_overflow_at_extremes() {
    let r = Rect { x: u32::MAX - 1, y: u32::MAX - 1, width: u32::MAX, height: u32::MAX };
    assert_eq!(r.is_inside(u32::MAX, u32::MAX), true);
    assert_eq!(r.is_inside(u32::MAX - 1, u32::MAX), false);
}

#[test]
fn test_is_inside_empty_rect() {
    let r = Rect { x: 3, y: 3, width: 0, height: 0 };
    assert_eq!(r.is_inside(3, 3), false);
    assert_eq!(r.is_inside(4, 4), false);
}
