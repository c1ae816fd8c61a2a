use lighthouse::registry::{OpenPlan, WindowRegistry};
use lighthouse::windows::{
    close_screen_overlay, open_screen_overlay, open_settings_window, settings_window,
    show_main_window, update_screen_overlay_data, SETTINGS_LABEL,
};
use lighthouse::layout::ScreenSize;

#[test]
fn opening_twice_replaces_the_first_window() {
    let mut r = WindowRegistry::new();
    assert_eq!(r.open("viewer"), OpenPlan { close: None, create: 0 });
    assert_eq!(r.open("other"), OpenPlan { close: None, create: 1 });
    assert_eq!(r.open("viewer"), OpenPlan { close: Some(0), create: 2 });
    assert_eq!(r.find("viewer"), Some(2));
    assert_eq!(r.find("other"), Some(1));
    assert_eq!(r.close("viewer"), Some(2));
    assert_eq!(r.find("viewer"), None);
    assert_eq!(r.close("viewer"), None);
}

#[test]
fn settings_window_is_replaced() {
    let mut r = WindowRegistry::new();
    let (closed, serial, spec) = open_settings_window(&mut r);
    assert_eq!((closed, serial), (None, 0));
    assert_eq!(spec.label, SETTINGS_LABEL);
    assert_eq!(spec.page, "settings.html");
    assert_eq!(spec.title, "Lighthouse Settings");
    assert_eq!((spec.width_quarters, spec.height_quarters), (2240, 1680));
    assert!(spec.centered);
    assert_eq!(spec.resizable, Some(true));
    assert_eq!(spec.focused, Some(true));
    assert!(spec.transparent && !spec.decorations && !spec.always_on_top);
    let (closed, serial, _) = open_settings_window(&mut r);
    assert_eq!((closed, serial), (Some(0), 1));
    assert_eq!(settings_window().title, "Lighthouse Settings");
}

#[test]
fn overlay_without_screen_fails_after_closing_the_old_one() {
    let mut r = WindowRegistry::new();
    let screen = ScreenSize { width: 800, height: 600 };
    let (_, first) = open_screen_overlay(&mut r, Some(screen), 1u8);
    let first = first.unwrap();
    let (closed, second) = open_screen_overlay(&mut r, None, 2u8);
    assert_eq!(closed, Some(first.serial));
    assert_eq!(second.err(), Some(String::from("No screen found")));
    assert_eq!(
        update_screen_overlay_data(&r),
        Err(String::from("No overlay window exists. Use open_screen_overlay first."))
    );
}

#[test]
fn overlay_update_and_close_follow_the_registry() {
    let mut r = WindowRegistry::new();
    let (_, o) = open_screen_overlay(&mut r, Some(ScreenSize { width: 4, height: 4 }), ());
    let serial = o.unwrap().serial;
    assert_eq!(update_screen_overlay_data(&r), Ok(serial));
    assert_eq!(close_screen_overlay(&mut r), Some(serial));
    assert_eq!(close_screen_overlay(&mut r), None);
}

#[test]
fn main_window_must_exist() {
    let mut r = WindowRegistry::new();
    assert_eq!(show_main_window(&r), Err(String::from("Main window not found")));
    let plan = r.open("main");
    assert_eq!(show_main_window(&r), Ok(plan.create));
}
