use vstd::prelude::*;
use crate::handshake::ReadyHandshake;
use crate::layout::{OverlayGeometry, ScreenSize, overlay_geometry, overlay_geometry_spec};
use crate::registry::{
    WindowRegistry, count_label, lemma_replace_leaves_one, lemma_without_leaves_none, serial_of,
    without_label,
};

verus! {

/// Identifier of the main window.
pub const MAIN_LABEL: &'static str = "main";

/// Identifier of the settings window.
pub const SETTINGS_LABEL: &'static str = "settings";

/// Identifier of the see-through overlay.
pub const OVERLAY_LABEL: &'static str = "screen-overlay";

/// Window level that keeps the overlay above pop-up menus.
pub const OVERLAY_LEVEL: i32 = 102;

/// How a window is to be built. Sizes are logical, in quarter pixels, as the
/// overlay's width need not be whole. `None` leaves a setting to the
/// windowing framework.
pub struct WindowSpec {
    pub label: String,
    pub page: String,
    pub title: String,
    pub width_quarters: u64,
    pub height_quarters: u64,
    pub position: Option<(u32, u32)>,
    pub centered: bool,
    pub resizable: Option<bool>,
    pub focused: Option<bool>,
    pub decorations: bool,
    pub transparent: bool,
    pub always_on_top: bool,
    /// Whether pointer events pass through the window.
    pub click_through: bool,
    /// Window level to raise the window to, where the platform has levels.
    pub level: Option<i32>,
}

/// The settings window: 560 by 420, centred, undecorated and transparent,
/// resizable, focused, not kept on top.
pub open spec fn is_settings_spec(w: WindowSpec) -> bool {
    &&& w.label@ == SETTINGS_LABEL@
    &&& w.page@ == "settings.html"@
    &&& w.title@ == "Lighthouse Settings"@
    &&& w.width_quarters == 4 * 560
    &&& w.height_quarters == 4 * 420
    &&& w.position.is_none()
    &&& w.centered
    &&& w.resizable == Some(true)
    &&& w.focused == Some(true)
    &&& !w.decorations
    &&& w.transparent
    &&& !w.always_on_top
    &&& !w.click_through
    &&& w.level.is_none()
}

/// The overlay for a display of size `screen`: at the origin over the
/// captured part of the screen, undecorated, transparent, on top of
/// everything and letting the pointer through.
pub open spec fn is_overlay_spec(w: WindowSpec, g: OverlayGeometry) -> bool {
    &&& w.label@ == OVERLAY_LABEL@
    &&& w.page@ == "overlay.html"@
    &&& w.title@ == "Screen Overlay"@
    &&& w.width_quarters == g.width_quarters
    &&& w.height_quarters == 4 * g.height
    &&& w.position == Some((g.x, g.y))
    &&& !w.centered
    &&& w.resizable.is_none()
    &&& w.focused.is_none()
    &&& !w.decorations
    &&& w.transparent
    &&& w.always_on_top
    &&& w.click_through
    &&& w.level == Some(OVERLAY_LEVEL)
}

pub fn settings_window() -> (r: WindowSpec)
    ensures
        is_settings_spec(r),
{
    WindowSpec {
        label: String::from_str(SETTINGS_LABEL),
        page: String::from_str("settings.html"),
        title: String::from_str("Lighthouse Settings"),
        width_quarters: 4 * 560,
        height_quarters: 4 * 420,
        position: None,
        centered: true,
        resizable: Some(true),
        focused: Some(true),
        decorations: false,
        transparent: true,
        always_on_top: false,
        click_through: false,
        level: None,
    }
}

pub fn overlay_window(screen: ScreenSize) -> (r: WindowSpec)
    ensures
        is_overlay_spec(r, overlay_geometry_spec(screen)),
{
    let g = overlay_geometry(screen);
    WindowSpec {
        label: String::from_str(OVERLAY_LABEL),
        page: String::from_str("overlay.html"),
        title: String::from_str("Screen Overlay"),
        width_quarters: g.width_quarters,
        height_quarters: 4 * g.height as u64,
        position: Some((g.x, g.y)),
        centered: false,
        resizable: None,
        focused: None,
        decorations: false,
        transparent: true,
        always_on_top: true,
        click_through: true,
        level: Some(OVERLAY_LEVEL),
    }
}

/// Opens the settings window in place of any earlier one: the serial of the
/// window to close first, if any, the serial of the new one, and how to
/// build it.
pub fn open_settings_window(registry: &mut WindowRegistry) -> (r: (Option<u64>, u64, WindowSpec))
    requires
        old(registry).wf(),
        old(registry).next_serial_spec() < u64::MAX,
    ensures
        final(registry).wf(),
        r.0 == serial_of(old(registry)@, SETTINGS_LABEL@),
        r.1 == old(registry).next_serial_spec(),
        final(registry)@ == without_label(old(registry)@, SETTINGS_LABEL@).push(
            (SETTINGS_LABEL@, r.1),
        ),
        final(registry).next_serial_spec() == old(registry).next_serial_spec() + 1,
        count_label(final(registry)@, SETTINGS_LABEL@) == 1,
        is_settings_spec(r.2),
{
    let plan = registry.open(SETTINGS_LABEL);
    (plan.close, plan.create, settings_window())
}

/// A freshly planned overlay: its serial, how to build it, and the exchange
/// that delivers its payload once it is ready.
pub struct NewOverlay<P> {
    pub serial: u64,
    pub spec: WindowSpec,
    pub handshake: ReadyHandshake<P>,
}

/// Opens the overlay in place of any earlier one. The earlier overlay is
/// closed first in any case (its serial comes back in the first place); then,
/// without a display, no new one is opened and the error says so.
pub fn open_screen_overlay<P>(
    registry: &mut WindowRegistry,
    screen: Option<ScreenSize>,
    payload: P,
) -> (r: (Option<u64>, Result<NewOverlay<P>, String>))
    requires
        old(registry).wf(),
        old(registry).next_serial_spec() < u64::MAX,
    ensures
        final(registry).wf(),
        r.0 == serial_of(old(registry)@, OVERLAY_LABEL@),
        match screen {
            None => {
                &&& r.1 matches Err(m) && m@ == "No screen found"@
                &&& final(registry)@ == without_label(old(registry)@, OVERLAY_LABEL@)
                &&& final(registry).next_serial_spec() == old(registry).next_serial_spec()
                &&& count_label(final(registry)@, OVERLAY_LABEL@) == 0
            },
            Some(s) => r.1 matches Ok(o) && {
                &&& o.serial == old(registry).next_serial_spec()
                &&& final(registry)@ == without_label(old(registry)@, OVERLAY_LABEL@).push(
                    (OVERLAY_LABEL@, o.serial),
                )
                &&& final(registry).next_serial_spec() == old(registry).next_serial_spec() + 1
                &&& count_label(final(registry)@, OVERLAY_LABEL@) == 1
                &&& is_overlay_spec(o.spec, overlay_geometry_spec(s))
                &&& o.handshake.wf()
                &&& o.handshake.phase_spec() == crate::handshake::Phase::Created
                &&& o.handshake.payload_spec() == Some(payload)
            },
        },
{
    let ghost start = registry@;
    let closed = registry.close(OVERLAY_LABEL);
    match screen {
        None => {
            proof {
                lemma_without_leaves_none(start, OVERLAY_LABEL@);
            }
            (closed, Err(String::from_str("No screen found")))
        },
        Some(s) => {
            let plan = registry.open(OVERLAY_LABEL);
            proof {
                crate::registry::lemma_without_absent(start, OVERLAY_LABEL@);
                lemma_replace_leaves_one(start, OVERLAY_LABEL@, plan.create);
            }
            let spec = overlay_window(s);
            (closed, Ok(NewOverlay { serial: plan.create, spec, handshake: ReadyHandshake::new(payload) }))
        },
    }
}

/// The overlay to send new data to; it must have been opened.
pub fn update_screen_overlay_data(registry: &WindowRegistry) -> (r: Result<u64, String>)
    requires
        registry.wf(),
    ensures
        match serial_of(registry@, OVERLAY_LABEL@) {
            Some(s) => r == Ok::<u64, String>(s),
            None => r matches Err(m) && m@ == "No overlay window exists. Use open_screen_overlay first."@,
        },
{
    match registry.find(OVERLAY_LABEL) {
        Some(s) => Ok(s),
        None => Err(String::from_str("No overlay window exists. Use open_screen_overlay first.")),
    }
}

/// Forgets the overlay, if one is open: the serial of the window to close.
pub fn close_screen_overlay(registry: &mut WindowRegistry) -> (r: Option<u64>)
    requires
        old(registry).wf(),
    ensures
        final(registry).wf(),
        r == serial_of(old(registry)@, OVERLAY_LABEL@),
        final(registry)@ == without_label(old(registry)@, OVERLAY_LABEL@),
        count_label(final(registry)@, OVERLAY_LABEL@) == 0,
{
    registry.close(OVERLAY_LABEL)
}

/// The main window, to be shown and focused; it must exist.
pub fn show_main_window(registry: &WindowRegistry) -> (r: Result<u64, String>)
    requires
        registry.wf(),
    ensures
        match serial_of(registry@, MAIN_LABEL@) {
            Some(s) => r == Ok::<u64, String>(s),
            None => r matches Err(m) && m@ == "Main window not found"@,
        },
{
    match registry.find(MAIN_LABEL) {
        Some(s) => Ok(s),
        None => Err(String::from_str("Main window not found")),
    }
}

} // verus!
