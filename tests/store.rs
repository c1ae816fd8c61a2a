use lighthouse::focus::FocusedWindowInfo;
use lighthouse::store::{escape_text, focus_state_json, read_focus_state};

fn info(owner: &str, name: &str, window_id: i64, process_id: i32) -> FocusedWindowInfo {
    FocusedWindowInfo {
        owner_name: String::from(owner),
        window_name: String::from(name),
        window_id,
        process_id,
    }
}

fn same(a: &FocusedWindowInfo, b: &FocusedWindowInfo) -> bool {
    a.owner_name == b.owner_name
        && a.window_name == b.window_name
        && a.window_id == b.window_id
        && a.process_id == b.process_id
}

#[test]
fn saved_form_is_pretty_json() {
    let text = focus_state_json(&info("Safari", "Start Page", 812001, 812));
    assert_eq!(
        text,
        "{\n  \"owner_name\": \"Safari\",\n  \"window_name\": \"Start Page\",\n  \"window_id\": 812001,\n  \"process_id\": 812\n}"
    );
}

#[test]
fn strings_are_escaped_as_json() {
    assert_eq!(escape_text(&String::from("a\"b\\c")), "a\\\"b\\\\c");
    assert_eq!(escape_text(&String::from("\n\t\r\u{8}\u{c}")), "\\n\\t\\r\\b\\f");
    assert_eq!(escape_text(&String::from("\u{1}\u{1f}\u{7f}é")), "\\u0001\\u001f\u{7f}é");
}

#[test]
fn saved_window_reads_back() {
    for w in [
        info("Safari", "Start Page", 812001, 812),
        info("", "", 0, 0),
        info("Quote \" and \\ slash", "line\nbreak\u{1}", -1, -2),
        info("Ünïcödé → ✓", "tab\there", i64::MIN, i32::MAX),
        info("x", "y", i64::MAX, i32::MIN),
    ] {
        let back = read_focus_state(&focus_state_json(&w)).unwrap();
        assert!(same(&back, &w));
    }
}

#[test]
fn other_text_reads_as_nothing() {
    assert!(read_focus_state("").is_none());
    assert!(read_focus_state("{}").is_none());
    assert!(read_focus_state("{\"owner_name\":\"a\",\"window_name\":\"b\",\"window_id\":1,\"process_id\":2}").is_none());
    let good = "{\n  \"owner_name\": \"a\",\n  \"window_name\": \"b\",\n  \"window_id\": 1,\n  \"process_id\": 2\n}";
    assert!(read_focus_state(good).is_some());
    assert!(read_focus_state(&format!("{}\n", good)).is_none());
    let plus = "{\n  \"owner_name\": \"a\",\n  \"window_name\": \"b\",\n  \"window_id\": +1,\n  \"process_id\": 2\n}";
    assert!(read_focus_state(plus).is_none());
    let big = "{\n  \"owner_name\": \"a\",\n  \"window_name\": \"b\",\n  \"window_id\": 1,\n  \"process_id\": 2147483648\n}";
    assert!(read_focus_state(big).is_none());
}
