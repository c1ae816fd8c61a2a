use lighthouse::focus::FocusedWindowInfo;
use lighthouse::layout::{split_layout, ScreenSize};
use lighthouse::script::{
    after_main_script, after_target_script, arrange_windows, main_window_script,
    target_window_script,
};
use lighthouse::window_list::ScriptOutput;

fn info(owner: &str, window_id: i64) -> FocusedWindowInfo {
    FocusedWindowInfo {
        owner_name: String::from(owner),
        window_name: String::from("w"),
        window_id,
        process_id: 7,
    }
}

const MAIN_1920: &str = "
            tell application \"System Events\"
                tell process \"Lighthouse\"
                    tell window 1
                        set position to {1440, 0}
                        set size to {480, 1080}
                    end tell
                end tell
            end tell
            ";

const TARGET_1920: &str = "
            tell application \"System Events\"
                tell process \"Safari\"
                    set frontmost to true
                    tell window 2
                        set position to {0, 0}
                        set size to {1440, 1080}
                    end tell
                end tell
            end tell
            ";

#[test]
fn scripts_place_both_windows() {
    let l = split_layout(ScreenSize { width: 1920, height: 1080 });
    assert_eq!(main_window_script(l), MAIN_1920);
    assert_eq!(target_window_script(&String::from("Safari"), 2, l), TARGET_1920);
}

#[test]
fn arrangement_plan_uses_the_window_index() {
    let plan = arrange_windows(&info("Safari", 7002), Some(ScreenSize { width: 1920, height: 1080 }))
        .ok()
        .unwrap();
    assert_eq!(plan.main_script, MAIN_1920);
    assert_eq!(plan.target_script, TARGET_1920);
    let none = arrange_windows(&info("Safari", 7002), None);
    assert_eq!(none.err(), Some(String::from("No screen found")));
}

#[test]
fn only_the_target_script_decides_the_outcome() {
    let failed = Ok(ScriptOutput {
        success: false,
        stdout: String::new(),
        stderr: String::from("no window"),
    });
    assert_eq!(after_main_script(&failed), Ok(()));
    assert_eq!(
        after_main_script(&Err(String::from("spawn"))),
        Err(String::from("Failed to execute AppleScript for Lighthouse: spawn"))
    );
    assert_eq!(
        after_target_script(&failed),
        Err(String::from("Failed to position window: no window"))
    );
    assert_eq!(
        after_target_script(&Err(String::from("spawn"))),
        Err(String::from("Failed to execute AppleScript: spawn"))
    );
    let fine = Ok(ScriptOutput { success: true, stdout: String::new(), stderr: String::new() });
    assert_eq!(after_target_script(&fine), Ok(()));
}
