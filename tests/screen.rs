use bullet_svg::screen::{ScreenRect, ScreenSize};

fn rect(x: i32, y: i32, width: u32, height: u32) -> ScreenRect {
    ScreenRect { x, y, width, height }
}

#[test]
fn zero_sides_are_rejected() {
    assert_eq!(ScreenRect::new(0, 0, 0, 5), None);
    assert_eq!(ScreenRect::new(0, 0, 5, 0), None);
    assert_eq!(ScreenRect::new(-3, 4, 5, 6), Some(rect(-3, 4, 5, 6)));
    assert_eq!(ScreenSize::new(0, 1), None);
    assert_eq!(ScreenSize::new(2, 3), Some(ScreenSize { width: 2, height: 3 }));
    assert_eq!(ScreenSize { width: 2, height: 3 }.to_screen_rect(), rect(0, 0, 2, 3));
}

#[test]
fn fit_to_rect_intersects() {
    let bounds = rect(0, 0, 100, 50);
    assert_eq!(rect(10, 10, 20, 20).fit_to_rect(bounds), Some(rect(10, 10, 20, 20)));
    assert_eq!(rect(-10, -5, 30, 20).fit_to_rect(bounds), Some(rect(0, 0, 20, 15)));
    assert_eq!(rect(90, 40, 30, 30).fit_to_rect(bounds), Some(rect(90, 40, 10, 10)));
    assert_eq!(rect(-10, -10, 200, 200).fit_to_rect(bounds), Some(bounds));
}

#[test]
fn fit_to_rect_disjoint_is_none() {
    let bounds = rect(0, 0, 100, 50);
    assert_eq!(rect(100, 0, 10, 10).fit_to_rect(bounds), None);
    assert_eq!(rect(-10, 0, 10, 10).fit_to_rect(bounds), None);
    assert_eq!(rect(0, 50, 10, 10).fit_to_rect(bounds), None);
}

#[test]
fn fit_to_rect_extreme_values() {
    let big = rect(i32::MAX, i32::MAX, u32::MAX, u32::MAX);
    assert_eq!(big.fit_to_rect(rect(i32::MIN, i32::MIN, u32::MAX, u32::MAX)), None);
    assert_eq!(
        rect(i32::MIN, 0, u32::MAX, 1).fit_to_rect(rect(0, 0, 10, 10)),
        Some(rect(0, 0, 10, 1))
    );
}
