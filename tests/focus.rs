use lighthouse::focus::{AppState, FocusedWindowInfo, StoreAction};

fn info(owner: &str) -> FocusedWindowInfo {
    FocusedWindowInfo {
        owner_name: String::from(owner),
        window_name: String::from("w"),
        window_id: 5001,
        process_id: 5,
    }
}

#[test]
fn selection_mode_toggles() {
    let mut s = AppState::new();
    assert!(!s.get_focus_selection_mode());
    assert!(s.start_focus_selection_mode());
    assert!(s.get_focus_selection_mode());
    assert!(!s.stop_focus_selection_mode());
    assert!(!s.get_focus_selection_mode());
}

#[test]
fn arranged_window_is_remembered_and_saved() {
    let mut s = AppState::new();
    assert!(s.get_focused_window().is_none());
    match s.record_arrangement(info("Safari")) {
        StoreAction::Save(w) => assert_eq!(w.owner_name, "Safari"),
        _ => panic!("expected a save"),
    }
    assert_eq!(s.get_focused_window().unwrap().owner_name, "Safari");
}

#[test]
fn failed_auto_arrangement_forgets_the_window() {
    let mut s = AppState::new();
    s.restore_saved(Some(info("Gone")));
    assert_eq!(s.get_focused_window().unwrap().owner_name, "Gone");
    assert!(matches!(s.after_auto_arrange(&Err(String::from("x"))), StoreAction::Remove));
    assert!(s.get_focused_window().is_none());
}

#[test]
fn successful_auto_arrangement_keeps_the_window() {
    let mut s = AppState::new();
    s.restore_saved(Some(info("Here")));
    s.restore_saved(None);
    assert!(matches!(s.after_auto_arrange(&Ok(())), StoreAction::Keep));
    assert_eq!(s.get_focused_window().unwrap().owner_name, "Here");
}
