use lighthouse::handshake::{Phase, ReadyHandshake, Signal};
use lighthouse::layout::{overlay_geometry, ScreenSize};
use lighthouse::registry::WindowRegistry;
use lighthouse::windows::{open_screen_overlay, OVERLAY_LABEL};

#[derive(Clone, Debug, PartialEq)]
struct Point {
    x: f64,
    y: f64,
}

#[derive(Clone, Debug, PartialEq)]
struct BoundingBox {
    x_min: f64,
    y_min: f64,
    x_max: f64,
    y_max: f64,
}

#[derive(Clone, Debug, PartialEq)]
struct OverlayPayload {
    points: Vec<Point>,
    boxes: Vec<BoundingBox>,
}

#[test]
fn ready_signal_releases_payload_after_it() {
    let mut h = ReadyHandshake::new(7u32);
    assert_eq!(h.phase(), Phase::Created);
    assert_eq!(h.on_signal(Signal::Listening), None);
    assert_eq!(h.phase(), Phase::AwaitingReady);
    assert_eq!(h.on_signal(Signal::Ready), Some(7));
    assert_eq!(h.phase(), Phase::ReadySignaled);
    assert_eq!(h.on_signal(Signal::Timeout), None);
    assert_eq!(h.on_signal(Signal::Ready), None);
    assert_eq!(h.on_signal(Signal::Pushed), None);
    assert_eq!(h.phase(), Phase::DataPushed);
}

#[test]
fn timeout_still_pushes_exactly_once() {
    let mut h = ReadyHandshake::new(String::from("payload"));
    assert_eq!(h.on_signal(Signal::Listening), None);
    assert_eq!(h.on_signal(Signal::Timeout), Some(String::from("payload")));
    assert_eq!(h.phase(), Phase::TimedOut);
    assert_eq!(h.on_signal(Signal::Ready), None);
    assert_eq!(h.on_signal(Signal::Timeout), None);
    assert_eq!(h.on_signal(Signal::Pushed), None);
    assert_eq!(h.phase(), Phase::DataPushed);
}

#[test]
fn ready_before_listening_is_not_seen() {
    let mut h = ReadyHandshake::new(1u8);
    assert_eq!(h.on_signal(Signal::Ready), None);
    assert_eq!(h.on_signal(Signal::Timeout), None);
    assert_eq!(h.phase(), Phase::Created);
    assert_eq!(h.on_signal(Signal::Listening), None);
    assert_eq!(h.on_signal(Signal::Pushed), None);
    assert_eq!(h.phase(), Phase::AwaitingReady);
    assert_eq!(h.on_signal(Signal::Timeout), Some(1));
}

#[test]
fn overlay_with_one_point_delivers_it_after_ready() {
    let mut registry = WindowRegistry::new();
    let screen = ScreenSize { width: 1440, height: 900 };
    let payload = OverlayPayload { points: vec![Point { x: 0.5, y: 0.5 }], boxes: vec![] };
    let (closed, opened) = open_screen_overlay(&mut registry, Some(screen), payload.clone());
    assert_eq!(closed, None);
    let mut overlay = opened.unwrap();
    assert_eq!(overlay.spec.label, OVERLAY_LABEL);
    assert_eq!(overlay.spec.position, Some((0, 0)));
    assert_eq!(overlay.spec.width_quarters, 3 * 1440);
    assert_eq!(overlay.spec.width_quarters as f64 / 4.0, 1080.0);
    assert_eq!(overlay.spec.height_quarters, 4 * 900);
    assert!(overlay.spec.transparent);
    assert!(overlay.spec.always_on_top);
    assert!(overlay.spec.click_through);
    assert!(!overlay.spec.decorations);
    assert_eq!(overlay_geometry(screen).width_quarters, 4320);
    assert_eq!(overlay.handshake.on_signal(Signal::Listening), None);
    let delivered = overlay.handshake.on_signal(Signal::Ready).unwrap();
    assert_eq!(delivered, OverlayPayload { points: vec![Point { x: 0.5, y: 0.5 }], boxes: vec![] });
    assert_eq!(delivered.boxes.len(), 0);
    let _unused = BoundingBox { x_min: 0.0, y_min: 0.0, x_max: 1.0, y_max: 1.0 };
}
