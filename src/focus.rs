use vstd::prelude::*;

verus! {

/// An application window outside this program, as the user picked it for
/// arrangement. `window_id` is `process_id * 1000 + index`, where `index`
/// counts the windows of the process from 1.
pub struct FocusedWindowInfo {
    pub owner_name: String,
    pub window_name: String,
    pub window_id: i64,
    pub process_id: i32,
}

impl Clone for FocusedWindowInfo {
    fn clone(&self) -> (r: Self)
        ensures
            r == *self,
    {
        FocusedWindowInfo {
            owner_name: self.owner_name.clone(),
            window_name: self.window_name.clone(),
            window_id: self.window_id,
            process_id: self.process_id,
        }
    }
}

/// What is to become of the saved focus record on disk.
pub enum StoreAction {
    /// Leave the file as it is.
    Keep,
    /// Write this record, replacing any earlier one.
    Save(FocusedWindowInfo),
    /// Delete the file.
    Remove,
}

/// The record on disk after `a` is carried out on `disk`.
pub open spec fn stored_after(a: StoreAction, disk: Option<FocusedWindowInfo>) -> Option<
    FocusedWindowInfo,
> {
    match a {
        StoreAction::Keep => disk,
        StoreAction::Save(info) => Some(info),
        StoreAction::Remove => None,
    }
}

/// The state that the application keeps while it runs: the window picked for
/// arrangement, if any, and whether the user is picking one right now.
pub struct AppState {
    pub focused_window: Option<FocusedWindowInfo>,
    pub selection_mode: bool,
}

impl AppState {
    pub fn new() -> (r: Self)
        ensures
            r.focused_window.is_none(),
            !r.selection_mode,
    {
        AppState { focused_window: None, selection_mode: false }
    }

    /// Takes over the record found on disk at start-up, if there is one.
    pub fn restore_saved(&mut self, saved: Option<FocusedWindowInfo>)
        ensures
            final(self).focused_window == (match saved {
                Some(info) => Some(info),
                None => old(self).focused_window,
            }),
            final(self).selection_mode == old(self).selection_mode,
    {
        if let Some(info) = saved {
            self.focused_window = Some(info);
        }
    }

    /// Enters the mode in which the user picks a window; returns the value to
    /// broadcast to the interface.
    pub fn start_focus_selection_mode(&mut self) -> (r: bool)
        ensures
            final(self).selection_mode,
            r,
            final(self).focused_window == old(self).focused_window,
    {
        self.selection_mode = true;
        true
    }

    /// Leaves the picking mode; returns the value to broadcast.
    pub fn stop_focus_selection_mode(&mut self) -> (r: bool)
        ensures
            !final(self).selection_mode,
            !r,
            final(self).focused_window == old(self).focused_window,
    {
        self.selection_mode = false;
        false
    }

    pub fn get_focus_selection_mode(&self) -> (r: bool)
        ensures
            r == self.selection_mode,
    {
        self.selection_mode
    }

    pub fn get_focused_window(&self) -> (r: Option<FocusedWindowInfo>)
        ensures
            r == self.focused_window,
    {
        match &self.focused_window {
            Some(info) => Some(info.clone()),
            None => None,
        }
    }

    /// After `info` was arranged on the user's request: remember it, here
    /// and on disk.
    pub fn record_arrangement(&mut self, info: FocusedWindowInfo) -> (r: StoreAction)
        ensures
            final(self).focused_window == Some(info),
            r == StoreAction::Save(info),
            final(self).selection_mode == old(self).selection_mode,
    {
        self.focused_window = Some(info.clone());
        StoreAction::Save(info)
    }

    /// After the remembered window was arranged again when the main window
    /// came up. If that failed, the window is most likely gone: forget it,
    /// here and on disk. Otherwise nothing changes.
    pub fn after_auto_arrange(&mut self, outcome: &Result<(), String>) -> (r: StoreAction)
        ensures
            auto_arrange_step(*old(self), *outcome, *final(self), r),
    {
        match outcome {
            Ok(()) => StoreAction::Keep,
            Err(_) => {
                self.focused_window = None;
                StoreAction::Remove
            },
        }
    }
}

/// Whether `after_auto_arrange` may turn the state `before` with outcome
/// `outcome` into `after`, handing out `action`.
pub open spec fn auto_arrange_step(
    before: AppState,
    outcome: Result<(), String>,
    after: AppState,
    action: StoreAction,
) -> bool {
    &&& after.selection_mode == before.selection_mode
    &&& outcome.is_err() ==> after.focused_window.is_none() && action == StoreAction::Remove
    &&& outcome.is_ok() ==> after.focused_window == before.focused_window && action
        == StoreAction::Keep
}

/// When arranging the remembered window fails, the record is gone both from
/// the running state and from disk, whatever the disk held before.
pub proof fn lemma_failed_arrangement_forgets(
    before: AppState,
    error: String,
    after: AppState,
    action: StoreAction,
    disk: Option<FocusedWindowInfo>,
)
    requires
        auto_arrange_step(before, Err(error), after, action),
    ensures
        after.focused_window.is_none(),
        stored_after(action, disk).is_none(),
{
}

} // verus!
