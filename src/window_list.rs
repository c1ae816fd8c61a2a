use vstd::prelude::*;
use crate::focus::FocusedWindowInfo;
use crate::text::{
    chars_of, parse_i32, parse_i32_spec, parse_i64, parse_i64_spec, split, split_on, string_of,
    trim, trim_range, char_views,
};

verus! {

/// What a run of an OS script printed, and whether it exited with success.
pub struct ScriptOutput {
    pub success: bool,
    pub stdout: String,
    pub stderr: String,
}

/// The fields of a window descriptor: owner, window name, window id, process id.
pub type WindowFields = (Seq<char>, Seq<char>, i64, i32);

pub open spec fn fields_of(info: FocusedWindowInfo) -> WindowFields {
    (info.owner_name@, info.window_name@, info.window_id, info.process_id)
}

pub open spec fn or_zero_i64(v: Option<i64>) -> i64 {
    match v {
        Some(x) => x,
        None => 0,
    }
}

pub open spec fn or_zero_i32(v: Option<i32>) -> i32 {
    match v {
        Some(x) => x,
        None => 0,
    }
}

/// One line of a window listing, `owner|window|process id|window id`, each
/// part trimmed. A part that is no number reads as 0. A line with any other
/// number of parts (a blank line among them) names no window.
pub open spec fn window_of_line(line: Seq<char>) -> Option<WindowFields> {
    let parts = split_on(trim(line), '|');
    if parts.len() == 4 {
        Some(
            (
                trim(parts[0]),
                trim(parts[1]),
                or_zero_i64(parse_i64_spec(trim(parts[3]))),
                or_zero_i32(parse_i32_spec(trim(parts[2]))),
            ),
        )
    } else {
        None
    }
}

/// The windows that the lines name, in order.
pub open spec fn windows_of_lines(lines: Seq<Seq<char>>) -> Seq<WindowFields>
    decreases lines.len(),
{
    if lines.len() == 0 {
        Seq::empty()
    } else {
        let init = windows_of_lines(lines.drop_last());
        match window_of_line(lines.last()) {
            Some(w) => init.push(w),
            None => init,
        }
    }
}

/// The windows that a listing names, one per line.
pub open spec fn listed_windows(output: Seq<char>) -> Seq<WindowFields> {
    windows_of_lines(split_on(output, '\n'))
}

fn window_from_line(line: &Vec<char>) -> (r: Option<FocusedWindowInfo>)
    ensures
        match r {
            Some(info) => window_of_line(line@) == Some(fields_of(info)),
            None => window_of_line(line@).is_none(),
        },
{
    let t = trim_range(line, 0, line.len());
    proof {
        assert(line@.subrange(0, line@.len() as int) =~= line@);
    }
    let parts = split(&t, '|');
    if parts.len() != 4 {
        return None;
    }
    proof {
        assert(parts@[0]@ == char_views(parts@)[0]);
        assert(parts@[1]@ == char_views(parts@)[1]);
        assert(parts@[2]@ == char_views(parts@)[2]);
        assert(parts@[3]@ == char_views(parts@)[3]);
        assert(parts[0]@.subrange(0, parts[0]@.len() as int) =~= parts[0]@);
        assert(parts[1]@.subrange(0, parts[1]@.len() as int) =~= parts[1]@);
        assert(parts[2]@.subrange(0, parts[2]@.len() as int) =~= parts[2]@);
        assert(parts[3]@.subrange(0, parts[3]@.len() as int) =~= parts[3]@);
    }
    let owner = trim_range(&parts[0], 0, parts[0].len());
    let name = trim_range(&parts[1], 0, parts[1].len());
    let pid_text = trim_range(&parts[2], 0, parts[2].len());
    let id_text = trim_range(&parts[3], 0, parts[3].len());
    let process_id = match parse_i32(&pid_text) {
        Some(v) => v,
        None => 0,
    };
    let window_id = match parse_i64(&id_text) {
        Some(v) => v,
        None => 0,
    };
    Some(
        FocusedWindowInfo {
            owner_name: string_of(&owner),
            window_name: string_of(&name),
            window_id,
            process_id,
        },
    )
}

/// Reads the windows out of a listing: one line per window,
/// `owner|window|process id|window id`.
pub fn parse_window_list(output: &str) -> (r: Vec<FocusedWindowInfo>)
    ensures
        r@.map_values(|i: FocusedWindowInfo| fields_of(i)) == listed_windows(output@),
{
    let chars = chars_of(output);
    let lines = split(&chars, '\n');
    let ghost ls = char_views(lines@);
    let mut windows: Vec<FocusedWindowInfo> = Vec::new();
    let mut i: usize = 0;
    while i < lines.len()
        invariant
            i <= lines@.len(),
            ls == char_views(lines@),
            ls == split_on(output@, '\n'),
            windows@.map_values(|w: FocusedWindowInfo| fields_of(w)) == windows_of_lines(
                ls.take(i as int),
            ),
        decreases lines@.len() - i,
    {
        proof {
            assert(ls.take(i + 1).drop_last() =~= ls.take(i as int));
            assert(ls.take(i + 1).last() == lines@[i as int]@);
        }
        let ghost before = windows@;
        match window_from_line(&lines[i]) {
            Some(info) => {
                windows.push(info);
                proof {
                    assert(windows@.map_values(|w: FocusedWindowInfo| fields_of(w)) =~= before.map_values(
                        |w: FocusedWindowInfo| fields_of(w),
                    ).push(fields_of(windows@.last())));
                }
            },
            None => {},
        }
        i = i + 1;
    }
    proof {
        assert(ls.take(lines@.len() as int) =~= ls);
    }
    windows
}

/// What a caller is told when the accessibility check could not pass.
pub open spec fn permission_error(stderr: Seq<char>) -> Seq<char> {
    "Accessibility permissions required. Please grant Lighthouse access in System Settings → Privacy & Security → Accessibility. Error: "@
        + stderr
}

/// Judges the run of the harmless query that checks for accessibility access:
/// `Err(text)` if the script could not be started, `Ok(output)` otherwise.
pub fn check_permission(run: &Result<ScriptOutput, String>) -> (r: Result<(), String>)
    ensures
        match run {
            Err(e) => r matches Err(m) && m@ == "Failed to check permissions: "@ + e@,
            Ok(o) => if o.success {
                r is Ok
            } else {
                r matches Err(m) && m@ == permission_error(o.stderr@)
            },
        },
{
    match run {
        Err(e) => {
            let mut m = String::from_str("Failed to check permissions: ");
            m.append(e.as_str());
            Err(m)
        },
        Ok(o) => {
            if o.success {
                Ok(())
            } else {
                let mut m = String::from_str(
                    "Accessibility permissions required. Please grant Lighthouse access in System Settings → Privacy & Security → Accessibility. Error: ",
                );
                m.append(o.stderr.as_str());
                Err(m)
            }
        },
    }
}

/// Judges the run of the script that lists the windows of the other
/// applications: the windows it names, or why there are none to give.
pub fn get_all_windows(run: &Result<ScriptOutput, String>) -> (r: Result<
    Vec<FocusedWindowInfo>,
    String,
>)
    ensures
        match run {
            Err(e) => r matches Err(m) && m@ == "Failed to execute AppleScript: "@ + e@,
            Ok(o) => if o.success {
                r matches Ok(ws) && ws@.map_values(|i: FocusedWindowInfo| fields_of(i))
                    == listed_windows(o.stdout@)
            } else {
                r matches Err(m) && m@ == "AppleScript failed: "@ + o.stderr@
            },
        },
{
    match run {
        Err(e) => {
            let mut m = String::from_str("Failed to execute AppleScript: ");
            m.append(e.as_str());
            Err(m)
        },
        Ok(o) => {
            if o.success {
                Ok(parse_window_list(o.stdout.as_str()))
            } else {
                let mut m = String::from_str("AppleScript failed: ");
                m.append(o.stderr.as_str());
                Err(m)
            }
        },
    }
}

} // verus!
