use vstd::prelude::*;

verus! {

/// Size of a display, in pixels.
#[derive(Clone, Copy, PartialEq, Eq, Structural, Debug)]
pub struct ScreenSize {
    pub width: u32,
    pub height: u32,
}

/// The first display, which the layout is made for.
pub fn primary_screen(screens: &Vec<ScreenSize>) -> (r: Option<ScreenSize>)
    ensures
        r == (if screens@.len() > 0 {
            Some(screens@[0])
        } else {
            None::<ScreenSize>
        }),
{
    if screens.len() > 0 {
        Some(screens[0])
    } else {
        None
    }
}

/// `v` as an `i32`, held at `i32::MAX` when it is larger.
pub open spec fn clamp_i32(v: int) -> int {
    if v > i32::MAX {
        i32::MAX as int
    } else {
        v
    }
}

/// The split-screen arrangement: the picked window at the origin, over the
/// left three quarters of the display; the main window beside it, over the
/// right quarter; both at full height.
#[derive(Clone, Copy, PartialEq, Eq, Structural, Debug)]
pub struct SplitLayout {
    pub target_width: i32,
    pub main_x: i32,
    pub main_width: i32,
    pub height: i32,
}

pub open spec fn split_layout_spec(s: ScreenSize) -> SplitLayout {
    SplitLayout {
        target_width: clamp_i32(s.width * 3 / 4) as i32,
        main_x: clamp_i32(s.width * 3 / 4) as i32,
        main_width: (s.width / 4) as i32,
        height: clamp_i32(s.height as int) as i32,
    }
}

pub fn split_layout(screen: ScreenSize) -> (r: SplitLayout)
    ensures
        r == split_layout_spec(screen),
{
    let three_quarters: u64 = screen.width as u64 * 3 / 4;
    let target_width: i32 = if three_quarters > i32::MAX as u64 {
        i32::MAX
    } else {
        three_quarters as i32
    };
    let height: i32 = if screen.height > i32::MAX as u32 {
        i32::MAX
    } else {
        screen.height as i32
    };
    SplitLayout {
        target_width,
        main_x: target_width,
        main_width: (screen.width / 4) as i32,
        height,
    }
}

/// Where the see-through overlay goes: at the origin, as wide as the part of
/// the screen that is captured (in quarter pixels, as the width need not be
/// whole), and as tall as the screen.
#[derive(Clone, Copy, PartialEq, Eq, Structural, Debug)]
pub struct OverlayGeometry {
    pub x: u32,
    pub y: u32,
    pub width_quarters: u64,
    pub height: u32,
}

pub open spec fn overlay_geometry_spec(s: ScreenSize) -> OverlayGeometry {
    OverlayGeometry { x: 0, y: 0, width_quarters: (3 * s.width) as u64, height: s.height }
}

pub fn overlay_geometry(screen: ScreenSize) -> (r: OverlayGeometry)
    ensures
        r == overlay_geometry_spec(screen),
{
    OverlayGeometry { x: 0, y: 0, width_quarters: 3 * screen.width as u64, height: screen.height }
}

/// Index of a window inside its owning process, recovered from the synthetic
/// identifier `process_id * 1000 + index`; never below 1.
pub open spec fn window_index_of(window_id: int) -> int {
    let r = if window_id >= 0 {
        window_id % 1000
    } else {
        -((-window_id) % 1000)
    };
    if r < 1 {
        1
    } else {
        r
    }
}

pub fn window_index(window_id: i64) -> (r: i32)
    ensures
        r as int == window_index_of(window_id as int),
{
    let rem: i64 = window_id % 1000;
    let r: i32 = rem as i32;
    if r < 1 {
        1
    } else {
        r
    }
}

} // verus!
