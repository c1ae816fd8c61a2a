use vstd::prelude::*;
use crate::focus::FocusedWindowInfo;
use crate::layout::{
    ScreenSize, SplitLayout, split_layout, split_layout_spec, window_index, window_index_of,
};
use crate::text::{decimal_of, decimal_text};
use crate::window_list::ScriptOutput;

verus! {

/// The script that moves the main window into the right quarter.
pub open spec fn main_window_script_spec(l: SplitLayout) -> Seq<char> {
    "\n            tell application \"System Events\"\n                tell process \"Lighthouse\"\n                    tell window 1\n                        set position to {"@
        + decimal_of(l.main_x as int) + ", 0}\n                        set size to {"@
        + decimal_of(l.main_width as int) + ", "@ + decimal_of(l.height as int)
        + "}\n                    end tell\n                end tell\n            end tell\n            "@
}

/// The script that brings the picked window to the front and moves it over
/// the left three quarters.
pub open spec fn target_window_script_spec(owner: Seq<char>, index: int, l: SplitLayout) -> Seq<
    char,
> {
    "\n            tell application \"System Events\"\n                tell process \""@ + owner
        + "\"\n                    set frontmost to true\n                    tell window "@
        + decimal_of(index) + "\n                        set position to {0, 0}\n                        set size to {"@
        + decimal_of(l.target_width as int) + ", "@ + decimal_of(l.height as int)
        + "}\n                    end tell\n                end tell\n            end tell\n            "@
}

pub fn main_window_script(l: SplitLayout) -> (r: String)
    ensures
        r@ == main_window_script_spec(l),
{
    let mut s = String::from_str(
        "\n            tell application \"System Events\"\n                tell process \"Lighthouse\"\n                    tell window 1\n                        set position to {",
    );
    s.append(decimal_text(l.main_x as i64).as_str());
    s.append(", 0}\n                        set size to {");
    s.append(decimal_text(l.main_width as i64).as_str());
    s.append(", ");
    s.append(decimal_text(l.height as i64).as_str());
    s.append("}\n                    end tell\n                end tell\n            end tell\n            ");
    s
}

pub fn target_window_script(owner: &String, index: i32, l: SplitLayout) -> (r: String)
    ensures
        r@ == target_window_script_spec(owner@, index as int, l),
{
    let mut s = String::from_str(
        "\n            tell application \"System Events\"\n                tell process \"",
    );
    s.append(owner.as_str());
    s.append("\"\n                    set frontmost to true\n                    tell window ");
    s.append(decimal_text(index as i64).as_str());
    s.append("\n                        set position to {0, 0}\n                        set size to {");
    s.append(decimal_text(l.target_width as i64).as_str());
    s.append(", ");
    s.append(decimal_text(l.height as i64).as_str());
    s.append("}\n                    end tell\n                end tell\n            end tell\n            ");
    s
}

/// The two scripts that make up an arrangement, in the order they are run.
pub struct ArrangePlan {
    pub main_script: String,
    pub target_script: String,
}

/// Plans the split-screen arrangement of `focused_window` and the main
/// window on the first display, `screen`; fails when there is no display.
pub fn arrange_windows(focused_window: &FocusedWindowInfo, screen: Option<ScreenSize>) -> (r: Result<
    ArrangePlan,
    String,
>)
    ensures
        match screen {
            None => r matches Err(m) && m@ == "No screen found"@,
            Some(s) => r matches Ok(p) && p.main_script@ == main_window_script_spec(split_layout_spec(s))
                && p.target_script@ == target_window_script_spec(
                focused_window.owner_name@,
                window_index_of(focused_window.window_id as int),
                split_layout_spec(s),
            ),
        },
{
    match screen {
        None => Err(String::from_str("No screen found")),
        Some(s) => {
            let l = split_layout(s);
            let index = window_index(focused_window.window_id);
            Ok(
                ArrangePlan {
                    main_script: main_window_script(l),
                    target_script: target_window_script(&focused_window.owner_name, index, l),
                },
            )
        },
    }
}

/// After the script for the main window ran. Only a failure to start it
/// stops the arrangement: if it ran and failed, the main window merely stays
/// where it is.
pub fn after_main_script(run: &Result<ScriptOutput, String>) -> (r: Result<(), String>)
    ensures
        match run {
            Err(e) => r matches Err(m) && m@ == "Failed to execute AppleScript for Lighthouse: "@
                + e@,
            Ok(_) => r is Ok,
        },
{
    match run {
        Err(e) => {
            let mut m = String::from_str("Failed to execute AppleScript for Lighthouse: ");
            m.append(e.as_str());
            Err(m)
        },
        Ok(_) => Ok(()),
    }
}

/// After the script for the picked window ran: the arrangement succeeded
/// exactly when that script ran and succeeded.
pub fn after_target_script(run: &Result<ScriptOutput, String>) -> (r: Result<(), String>)
    ensures
        match run {
            Err(e) => r matches Err(m) && m@ == "Failed to execute AppleScript: "@ + e@,
            Ok(o) => if o.success {
                r is Ok
            } else {
                r matches Err(m) && m@ == "Failed to position window: "@ + o.stderr@
            },
        },
{
    match run {
        Err(e) => {
            let mut m = String::from_str("Failed to execute AppleScript: ");
            m.append(e.as_str());
            Err(m)
        },
        Ok(o) => {
            if o.success {
                Ok(())
            } else {
                let mut m = String::from_str("Failed to position window: ");
                m.append(o.stderr.as_str());
                Err(m)
            }
        },
    }
}

} // verus!
