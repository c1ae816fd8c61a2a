use lighthouse::layout::{
    overlay_geometry, primary_screen, split_layout, window_index, ScreenSize, SplitLayout,
};

#[test]
fn split_layout_gives_three_quarters_and_one_quarter() {
    let l = split_layout(ScreenSize { width: 1920, height: 1080 });
    assert_eq!(l, SplitLayout { target_width: 1440, main_x: 1440, main_width: 480, height: 1080 });
    let l = split_layout(ScreenSize { width: 1001, height: 7 });
    assert_eq!(l, SplitLayout { target_width: 750, main_x: 750, main_width: 250, height: 7 });
}

#[test]
fn split_layout_saturates_like_a_float_cast() {
    let l = split_layout(ScreenSize { width: u32::MAX, height: u32::MAX });
    assert_eq!(l.target_width, i32::MAX);
    assert_eq!(l.target_width, (u32::MAX as f64 * 0.75) as i32);
    assert_eq!(l.main_width, (u32::MAX as f64 * 0.25) as i32);
    assert_eq!(l.height, i32::MAX);
}

#[test]
fn window_index_comes_from_the_synthetic_id() {
    assert_eq!(window_index(812003), 3);
    assert_eq!(window_index(812000), 1);
    assert_eq!(window_index(0), 1);
    assert_eq!(window_index(-5), 1);
    assert_eq!(window_index(-1005), 1);
    assert_eq!(window_index(999), 999);
    assert_eq!(window_index(i64::MIN), 1);
}

#[test]
fn overlay_sits_at_the_origin() {
    let g = overlay_geometry(ScreenSize { width: 1001, height: 700 });
    assert_eq!((g.x, g.y, g.width_quarters, g.height), (0, 0, 3003, 700));
}

#[test]
fn first_screen_is_primary() {
    let a = ScreenSize { width: 1, height: 2 };
    let b = ScreenSize { width: 3, height: 4 };
    assert_eq!(primary_screen(&vec![a, b]), Some(a));
    assert_eq!(primary_screen(&vec![]), None);
}
