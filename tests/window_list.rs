use lighthouse::window_list::{check_permission, get_all_windows, parse_window_list, ScriptOutput};

fn run(success: bool, stdout: &str, stderr: &str) -> Result<ScriptOutput, String> {
    Ok(ScriptOutput {
        success,
        stdout: String::from(stdout),
        stderr: String::from(stderr),
    })
}

#[test]
fn listing_lines_become_windows() {
    let out = "Safari|Start Page|812|812001\n\n  Code | main.rs — app | 90 | 90002 \r\nbroken line\nA|B|x|y\n";
    let ws = parse_window_list(out);
    assert_eq!(ws.len(), 3);
    assert_eq!(ws[0].owner_name, "Safari");
    assert_eq!(ws[0].window_name, "Start Page");
    assert_eq!(ws[0].process_id, 812);
    assert_eq!(ws[0].window_id, 812001);
    assert_eq!(ws[1].owner_name, "Code");
    assert_eq!(ws[1].window_name, "main.rs — app");
    assert_eq!(ws[1].process_id, 90);
    assert_eq!(ws[1].window_id, 90002);
    assert_eq!(ws[2].owner_name, "A");
    assert_eq!(ws[2].process_id, 0);
    assert_eq!(ws[2].window_id, 0);
}

#[test]
fn lines_with_other_part_counts_are_skipped() {
    assert_eq!(parse_window_list("a|b|1\na|b|1|2|3\n").len(), 0);
    assert_eq!(parse_window_list("").len(), 0);
    assert_eq!(parse_window_list("|||").len(), 1);
}

#[test]
fn listing_errors_carry_the_script_output() {
    assert_eq!(
        get_all_windows(&run(false, "", "boom")).err(),
        Some(String::from("AppleScript failed: boom"))
    );
    assert_eq!(
        get_all_windows(&Err(String::from("no osascript"))).err(),
        Some(String::from("Failed to execute AppleScript: no osascript"))
    );
    let ok = get_all_windows(&run(true, "X|Y|1|1001\n", "")).unwrap();
    assert_eq!(ok.len(), 1);
    assert_eq!(ok[0].window_id, 1001);
}

#[test]
fn permission_check_explains_what_to_do() {
    assert_eq!(check_permission(&run(true, "Finder", "")), Ok(()));
    assert_eq!(
        check_permission(&run(false, "", "not allowed")),
        Err(String::from(
            "Accessibility permissions required. Please grant Lighthouse access in System Settings → Privacy & Security → Accessibility. Error: not allowed"
        ))
    );
    assert_eq!(
        check_permission(&Err(String::from("denied"))),
        Err(String::from("Failed to check permissions: denied"))
    );
}
