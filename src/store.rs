use vstd::prelude::*;
use crate::focus::FocusedWindowInfo;
use crate::text::{
    chars_of, decimal_of, decimal_text, lemma_decimal_read_back, parse_i32,
    parse_i32_spec, parse_i64, parse_i64_spec, string_of,
};
use crate::window_list::{WindowFields, fields_of};

verus! {

/// Name of the file, under the application's data directory, that holds the
/// window picked for arrangement.
pub const FOCUS_STATE_FILE: &'static str = "focus_state.json";

pub open spec fn hex_digit(d: int) -> char {
    if d < 10 {
        ((d + 48) as u8) as char
    } else {
        ((d - 10 + 97) as u8) as char
    }
}

/// How a character stands inside a JSON string: quote and backslash behind a
/// backslash, control characters as short escapes or as `\u00XX` in lower
/// case hex, everything else as it is.
pub open spec fn escape_char(c: char) -> Seq<char> {
    let u = c as u32;
    if c == '"' {
        seq!['\\', '"']
    } else if c == '\\' {
        seq!['\\', '\\']
    } else if u == 8 {
        seq!['\\', 'b']
    } else if u == 9 {
        seq!['\\', 't']
    } else if u == 10 {
        seq!['\\', 'n']
    } else if u == 12 {
        seq!['\\', 'f']
    } else if u == 13 {
        seq!['\\', 'r']
    } else if u < 0x20 {
        seq!['\\', 'u', '0', '0', hex_digit((u / 16) as int), hex_digit((u % 16) as int)]
    } else {
        seq![c]
    }
}

/// The inside of a JSON string that holds `s`.
pub open spec fn escape(s: Seq<char>) -> Seq<char>
    decreases s.len(),
{
    if s.len() == 0 {
        Seq::empty()
    } else {
        escape_char(s[0]) + escape(s.drop_first())
    }
}

/// The saved form of a window: a JSON object with its four fields, in
/// order, two spaces deep, one per line.
pub open spec fn focus_json(w: WindowFields) -> Seq<char> {
    "{\n  \"owner_name\": \""@ + escape(w.0) + "\""@ + ",\n  \"window_name\": \""@ + escape(w.1)
        + "\""@ + ",\n  \"window_id\": "@ + decimal_of(w.2 as int) + ",\n  \"process_id\": "@
        + decimal_of(w.3 as int) + "\n}"@
}

pub open spec fn hex_value(c: char) -> int {
    if '0' as u32 <= c as u32 <= '9' as u32 {
        c as u32 - '0' as u32
    } else {
        c as u32 - 'a' as u32 + 10
    }
}

pub open spec fn is_hex(c: char) -> bool {
    ('0' as u32 <= c as u32 <= '9' as u32) || ('a' as u32 <= c as u32 <= 'f' as u32)
}

/// Reads the rest of a JSON string from `pos` on, after `acc` was read
/// already: its characters and the position after its closing quote.
pub open spec fn read_string(s: Seq<char>, pos: int, acc: Seq<char>) -> Option<(Seq<char>, int)>
    decreases s.len() - pos,
{
    if pos < 0 || pos >= s.len() {
        None
    } else if s[pos] == '"' {
        Some((acc, pos + 1))
    } else if s[pos] == '\\' {
        if pos + 1 >= s.len() {
            None
        } else {
            let e = s[pos + 1];
            if e == '"' || e == '\\' {
                read_string(s, pos + 2, acc.push(e))
            } else if e == 'b' {
                read_string(s, pos + 2, acc.push(8u8 as char))
            } else if e == 't' {
                read_string(s, pos + 2, acc.push(9u8 as char))
            } else if e == 'n' {
                read_string(s, pos + 2, acc.push(10u8 as char))
            } else if e == 'f' {
                read_string(s, pos + 2, acc.push(12u8 as char))
            } else if e == 'r' {
                read_string(s, pos + 2, acc.push(13u8 as char))
            } else if e == 'u' && pos + 5 < s.len() && s[pos + 2] == '0' && s[pos + 3] == '0'
                && is_hex(s[pos + 4]) && is_hex(s[pos + 5]) {
                read_string(
                    s,
                    pos + 6,
                    acc.push(((hex_value(s[pos + 4]) * 16 + hex_value(s[pos + 5])) as u8) as char),
                )
            } else {
                None
            }
        }
    } else {
        read_string(s, pos + 1, acc.push(s[pos]))
    }
}

/// The position after `lit`, if `s` holds it at `pos`.
pub open spec fn after_literal(s: Seq<char>, pos: int, lit: Seq<char>) -> Option<int> {
    if 0 <= pos && pos + lit.len() <= s.len() && s.subrange(pos, pos + lit.len()) == lit {
        Some(pos + lit.len())
    } else {
        None
    }
}

/// The first comma at or after `pos`, or the end of `s`.
pub open spec fn next_comma(s: Seq<char>, pos: int) -> int
    decreases s.len() - pos,
{
    if pos < 0 || pos >= s.len() {
        s.len() as int
    } else if s[pos] == ',' {
        pos
    } else {
        next_comma(s, pos + 1)
    }
}

/// The two numbers at the end of a saved window, from `pos` on.
pub open spec fn read_numbers(s: Seq<char>, pos: int) -> Option<(i64, i32)> {
    let c = next_comma(s, pos);
    match parse_i64_spec(s.subrange(pos, c)) {
        None => None,
        Some(id) => match after_literal(s, c, ",\n  \"process_id\": "@) {
            None => None,
            Some(p) => if p + 2 <= s.len() && s.subrange(s.len() - 2, s.len() as int) == "\n}"@ {
                match parse_i32_spec(s.subrange(p, s.len() - 2)) {
                    None => None,
                    Some(pid) => Some((id, pid)),
                }
            } else {
                None
            },
        },
    }
}

/// Reads a saved window laid out as `focus_json` lays it out.
pub open spec fn read_focus_json(s: Seq<char>) -> Option<WindowFields> {
    match after_literal(s, 0, "{\n  \"owner_name\": \""@) {
        None => None,
        Some(owner_at) => match read_string(s, owner_at, Seq::empty()) {
            None => None,
            Some((owner, after_owner)) => match after_literal(s, after_owner, ",\n  \"window_name\": \""@) {
                None => None,
                Some(name_at) => match read_string(s, name_at, Seq::empty()) {
                    None => None,
                    Some((name, after_name)) => match after_literal(s, after_name, ",\n  \"window_id\": "@) {
                        None => None,
                        Some(id_at) => match read_numbers(s, id_at) {
                            None => None,
                            Some((id, pid)) => Some((owner, name, id, pid)),
                        },
                    },
                },
            },
        },
    }
}

proof fn lemma_escape_append(a: Seq<char>, b: Seq<char>)
    ensures
        escape(a + b) == escape(a) + escape(b),
    decreases a.len(),
{
    if a.len() == 0 {
        assert(a + b =~= b);
    } else {
        assert((a + b).drop_first() =~= a.drop_first() + b);
        lemma_escape_append(a.drop_first(), b);
        assert(escape(a + b) =~= escape(a) + escape(b));
    }
}

proof fn lemma_escape_one(c: char)
    ensures
        escape(seq![c]) == escape_char(c),
{
    let one = seq![c];
    assert(one.drop_first() =~= Seq::<char>::empty());
    assert(one[0] == c);
    assert(escape(Seq::<char>::empty()) == Seq::<char>::empty());
    assert(escape(one) == escape_char(c) + escape(one.drop_first()));
    assert(escape_char(c) + Seq::<char>::empty() =~= escape_char(c));
}

proof fn lemma_hex_round(d: int)
    requires
        0 <= d < 16,
    ensures
        is_hex(hex_digit(d)),
        hex_value(hex_digit(d)) == d,
{
}

/// Reading one escaped character at `p` gives the character and moves past
/// its escape.
proof fn lemma_read_one(s: Seq<char>, p: int, c: char, acc: Seq<char>)
    requires
        0 <= p,
        p + escape_char(c).len() < s.len(),
        s.subrange(p, p + escape_char(c).len()) == escape_char(c),
    ensures
        read_string(s, p, acc) == read_string(s, p + escape_char(c).len(), acc.push(c)),
{
    let e = escape_char(c);
    assert(s[p] == e[0]);
    if e.len() >= 2 {
        assert(s[p + 1] == e[1]);
    }
    let u = c as u32;
    if c != '"' && c != '\\' && u != 8 && u != 9 && u != 10 && u != 12 && u != 13 && u < 0x20 {
        assert(s[p + 2] == e[2]);
        assert(s[p + 3] == e[3]);
        assert(s[p + 4] == e[4]);
        assert(s[p + 5] == e[5]);
        lemma_hex_round((u / 16) as int);
        lemma_hex_round((u % 16) as int);
        assert((((u / 16) * 16 + u % 16) as u8) as char == c);
    }
}

proof fn lemma_read_escaped(s: Seq<char>, p: int, t: Seq<char>, acc: Seq<char>)
    requires
        0 <= p,
        p + escape(t).len() < s.len(),
        s.subrange(p, p + escape(t).len()) == escape(t),
        s[p + escape(t).len()] == '"',
    ensures
        read_string(s, p, acc) == Some((acc + t, p + escape(t).len() + 1)),
    decreases t.len(),
{
    if t.len() == 0 {
        assert(acc + t =~= acc);
    } else {
        let c = t[0];
        let rest = t.drop_first();
        let e = escape_char(c);
        let n = escape(t).len() as int;
        assert(escape(t) == e + escape(rest));
        assert(s.subrange(p, p + e.len()) =~= escape(t).subrange(0, e.len() as int));
        assert(escape(t).subrange(0, e.len() as int) =~= e);
        lemma_read_one(s, p, c, acc);
        assert(s.subrange(p + e.len(), p + n) =~= escape(t).subrange(e.len() as int, n));
        assert(escape(t).subrange(e.len() as int, n) =~= escape(rest));
        lemma_read_escaped(s, p + e.len(), rest, acc.push(c));
        assert(acc.push(c) + rest =~= acc + t);
    }
}

proof fn lemma_next_comma(s: Seq<char>, p: int, d: Seq<char>)
    requires
        0 <= p,
        p + d.len() < s.len(),
        s.subrange(p, p + d.len()) == d,
        !d.contains(','),
        s[p + d.len()] == ',',
    ensures
        next_comma(s, p) == p + d.len(),
    decreases d.len(),
{
    if d.len() > 0 {
        assert(s[p] == d[0]);
        assert(s[p] != ',') by {
            assert(d[0] == s[p]);
            if s[p] == ',' {
                assert(d.contains(','));
            }
        }
        let rest = d.drop_first();
        assert(s.subrange(p + 1, p + 1 + rest.len()) =~= rest);
        assert(!rest.contains(',')) by {
            if rest.contains(',') {
                let i = choose|i: int| 0 <= i < rest.len() && rest[i] == ',';
                assert(d[i + 1] == ',');
            }
        }
        lemma_next_comma(s, p + 1, rest);
    }
}

/// A saved window reads back as the same window: writing a record and
/// reading the file back gives what was written.
pub proof fn lemma_focus_json_round_trip(w: WindowFields)
    ensures
        read_focus_json(focus_json(w)) == Some(w),
{
    let k1 = "{\n  \"owner_name\": \""@;
    let q = "\""@;
    let k2 = ",\n  \"window_name\": \""@;
    let k3 = ",\n  \"window_id\": "@;
    let k4 = ",\n  \"process_id\": "@;
    let tail = "\n}"@;
    reveal_strlit("\"");
    reveal_strlit(",\n  \"process_id\": ");
    reveal_strlit("\n}");
    let e0 = escape(w.0);
    let e1 = escape(w.1);
    let d2 = decimal_of(w.2 as int);
    let d3 = decimal_of(w.3 as int);
    let s = focus_json(w);
    assert(s =~= k1 + e0 + q + k2 + e1 + q + k3 + d2 + k4 + d3 + tail);
    let owner_at = k1.len() as int;
    assert(s.subrange(0, owner_at) =~= k1);
    assert(s.subrange(owner_at, owner_at + e0.len()) =~= e0);
    assert(s[owner_at + e0.len()] == '"');
    lemma_read_escaped(s, owner_at, w.0, Seq::empty());
    assert(Seq::<char>::empty() + w.0 =~= w.0);
    let after_owner = owner_at + e0.len() + 1;
    assert(s.subrange(after_owner, after_owner + k2.len()) =~= k2);
    let name_at = after_owner + k2.len();
    assert(s.subrange(name_at, name_at + e1.len()) =~= e1);
    assert(s[name_at + e1.len()] == '"');
    lemma_read_escaped(s, name_at, w.1, Seq::empty());
    assert(Seq::<char>::empty() + w.1 =~= w.1);
    let after_name = name_at + e1.len() + 1;
    assert(s.subrange(after_name, after_name + k3.len()) =~= k3);
    let id_at = after_name + k3.len();
    lemma_decimal_read_back(w.2 as int);
    lemma_decimal_read_back(w.3 as int);
    assert(s.subrange(id_at, id_at + d2.len()) =~= d2);
    assert(s[id_at + d2.len()] == ',');
    lemma_next_comma(s, id_at, d2);
    let c = id_at + d2.len();
    assert(s.subrange(id_at, c) =~= d2);
    assert(s.subrange(c, c + k4.len()) =~= k4);
    let pid_at = c + k4.len();
    assert(s.subrange(s.len() - 2, s.len() as int) =~= tail);
    assert(s.subrange(pid_at, s.len() - 2) =~= d3);
}

fn hex_char(d: u32) -> (r: char)
    requires
        d < 16,
    ensures
        r == hex_digit(d as int),
{
    if d < 10 {
        ((d + 48) as u8) as char
    } else {
        ((d - 10 + 97) as u8) as char
    }
}

fn push_escaped(out: &mut Vec<char>, c: char)
    ensures
        final(out)@ == old(out)@ + escape_char(c),
{
    let u = c as u32;
    if c == '"' {
        out.push('\\');
        out.push('"');
    } else if c == '\\' {
        out.push('\\');
        out.push('\\');
    } else if u == 8 {
        out.push('\\');
        out.push('b');
    } else if u == 9 {
        out.push('\\');
        out.push('t');
    } else if u == 10 {
        out.push('\\');
        out.push('n');
    } else if u == 12 {
        out.push('\\');
        out.push('f');
    } else if u == 13 {
        out.push('\\');
        out.push('r');
    } else if u < 0x20 {
        out.push('\\');
        out.push('u');
        out.push('0');
        out.push('0');
        out.push(hex_char(u / 16));
        out.push(hex_char(u % 16));
    } else {
        out.push(c);
    }
    proof {
        assert(final(out)@ =~= old(out)@ + escape_char(c));
    }
}

/// The inside of a JSON string that holds `s`.
pub fn escape_text(s: &String) -> (r: String)
    ensures
        r@ == escape(s@),
{
    let chars = chars_of(s.as_str());
    let mut out: Vec<char> = Vec::new();
    let mut i: usize = 0;
    while i < chars.len()
        invariant
            i <= chars@.len(),
            chars@ == s@,
            out@ == escape(chars@.take(i as int)),
        decreases chars@.len() - i,
    {
        let c = chars[i];
        push_escaped(&mut out, c);
        proof {
            assert(chars@.take(i + 1) =~= chars@.take(i as int) + seq![c]);
            lemma_escape_append(chars@.take(i as int), seq![c]);
            lemma_escape_one(c);
        }
        i = i + 1;
    }
    proof {
        assert(chars@.take(chars@.len() as int) =~= chars@);
    }
    string_of(&out)
}

/// The saved form of `info`, as it is written to disk.
pub fn focus_state_json(info: &FocusedWindowInfo) -> (r: String)
    ensures
        r@ == focus_json(fields_of(*info)),
{
    let mut s = String::from_str("{\n  \"owner_name\": \"");
    s.append(escape_text(&info.owner_name).as_str());
    s.append("\"");
    s.append(",\n  \"window_name\": \"");
    s.append(escape_text(&info.window_name).as_str());
    s.append("\"");
    s.append(",\n  \"window_id\": ");
    s.append(decimal_text(info.window_id).as_str());
    s.append(",\n  \"process_id\": ");
    s.append(decimal_text(info.process_id as i64).as_str());
    s.append("\n}");
    s
}

fn literal_at(v: &Vec<char>, pos: usize, lit: &str) -> (r: Option<usize>)
    ensures
        r.is_some() == after_literal(v@, pos as int, lit@).is_some(),
        r matches Some(q) ==> after_literal(v@, pos as int, lit@) == Some(q as int) && q <= v@.len(),
{
    let l = chars_of(lit);
    let n = v.len();
    if l.len() > v.len() || pos > v.len() - l.len() {
        return None;
    }
    let mut i: usize = 0;
    while i < l.len()
        invariant
            i <= l@.len(),
            l@ == lit@,
            n == v@.len(),
            pos + l@.len() <= n,
            forall|k: int| 0 <= k < i ==> v@[pos + k] == l@[k],
        decreases l@.len() - i,
    {
        if v[pos + i] != l[i] {
            proof {
                assert(v@.subrange(pos as int, pos + l@.len())[i as int] != l@[i as int]);
            }
            return None;
        }
        i = i + 1;
    }
    proof {
        assert(v@.subrange(pos as int, pos + l@.len()) =~= l@);
    }
    Some(pos + l.len())
}

fn is_hex_char(c: char) -> (r: bool)
    ensures
        r == is_hex(c),
{
    let u = c as u32;
    (48 <= u && u <= 57) || (97 <= u && u <= 102)
}

fn hex_char_value(c: char) -> (r: u32)
    requires
        is_hex(c),
    ensures
        r == hex_value(c),
        r < 16,
{
    let u = c as u32;
    if u <= 57 {
        u - 48
    } else {
        u - 97 + 10
    }
}

fn read_string_at(v: &Vec<char>, start: usize) -> (r: Option<(Vec<char>, usize)>)
    requires
        start <= v@.len(),
    ensures
        match r {
            Some((t, p)) => read_string(v@, start as int, Seq::empty()) == Some((t@, p as int))
                && p <= v@.len(),
            None => read_string(v@, start as int, Seq::empty()).is_none(),
        },
{
    let mut pos = start;
    let mut acc: Vec<char> = Vec::new();
    loop
        invariant
            pos <= v@.len(),
            read_string(v@, pos as int, acc@) == read_string(v@, start as int, Seq::empty()),
        decreases v@.len() - pos,
    {
        if pos >= v.len() {
            return None;
        }
        let c = v[pos];
        if c == '"' {
            return Some((acc, pos + 1));
        }
        if c == '\\' {
            if pos + 1 >= v.len() {
                return None;
            }
            let e = v[pos + 1];
            if e == '"' || e == '\\' {
                acc.push(e);
                pos = pos + 2;
            } else if e == 'b' {
                acc.push(8u8 as char);
                pos = pos + 2;
            } else if e == 't' {
                acc.push(9u8 as char);
                pos = pos + 2;
            } else if e == 'n' {
                acc.push(10u8 as char);
                pos = pos + 2;
            } else if e == 'f' {
                acc.push(12u8 as char);
                pos = pos + 2;
            } else if e == 'r' {
                acc.push(13u8 as char);
                pos = pos + 2;
            } else if e == 'u' && v.len() - pos > 5 && v[pos + 2] == '0' && v[pos + 3] == '0'
                && is_hex_char(v[pos + 4]) && is_hex_char(v[pos + 5]) {
                let h = hex_char_value(v[pos + 4]);
                let l = hex_char_value(v[pos + 5]);
                acc.push(((h * 16 + l) as u8) as char);
                pos = pos + 6;
            } else {
                return None;
            }
        } else {
            acc.push(c);
            pos = pos + 1;
        }
    }
}

fn comma_at(v: &Vec<char>, from: usize) -> (r: usize)
    requires
        from <= v@.len(),
    ensures
        r == next_comma(v@, from as int),
        from <= r <= v@.len(),
{
    let mut i = from;
    while i < v.len() && v[i] != ','
        invariant
            from <= i <= v@.len(),
            next_comma(v@, i as int) == next_comma(v@, from as int),
        decreases v@.len() - i,
    {
        i = i + 1;
    }
    i
}

fn copy_range(v: &Vec<char>, from: usize, to: usize) -> (r: Vec<char>)
    requires
        from <= to <= v@.len(),
    ensures
        r@ == v@.subrange(from as int, to as int),
{
    let mut r: Vec<char> = Vec::new();
    let mut i = from;
    while i < to
        invariant
            from <= i <= to <= v@.len(),
            r@ == v@.subrange(from as int, i as int),
        decreases to - i,
    {
        r.push(v[i]);
        proof {
            assert(r@ =~= v@.subrange(from as int, i + 1));
        }
        i = i + 1;
    }
    r
}

fn numbers_at(v: &Vec<char>, pos: usize) -> (r: Option<(i64, i32)>)
    requires
        pos <= v@.len(),
    ensures
        r == read_numbers(v@, pos as int),
{
    let c = comma_at(v, pos);
    let id = match parse_i64(&copy_range(v, pos, c)) {
        Some(id) => id,
        None => return None,
    };
    let p = match literal_at(v, c, ",\n  \"process_id\": ") {
        Some(p) => p,
        None => return None,
    };
    let n = v.len();
    proof {
        reveal_strlit("\n}");
    }
    if n >= 2 && p <= n - 2 && v[n - 2] == '\n' && v[n - 1] == '}' {
        proof {
            assert(v@.subrange(n - 2, n as int) =~= "\n}"@);
        }
        match parse_i32(&copy_range(v, p, n - 2)) {
            Some(pid) => Some((id, pid)),
            None => None,
        }
    } else {
        proof {
            if p + 2 <= n {
                assert(v@.subrange(n - 2, n as int)[0] == v@[n - 2]);
                assert(v@.subrange(n - 2, n as int)[1] == v@[n - 1]);
            }
        }
        None
    }
}

fn fields_at(v: &Vec<char>) -> (r: Option<FocusedWindowInfo>)
    ensures
        match r {
            Some(info) => read_focus_json(v@) == Some(fields_of(info)),
            None => read_focus_json(v@).is_none(),
        },
{
    let owner_at = match literal_at(v, 0, "{\n  \"owner_name\": \"") {
        Some(p) => p,
        None => return None,
    };
    let (owner, after_owner) = match read_string_at(v, owner_at) {
        Some(x) => x,
        None => return None,
    };
    let name_at = match literal_at(v, after_owner, ",\n  \"window_name\": \"") {
        Some(p) => p,
        None => return None,
    };
    let (name, after_name) = match read_string_at(v, name_at) {
        Some(x) => x,
        None => return None,
    };
    let id_at = match literal_at(v, after_name, ",\n  \"window_id\": ") {
        Some(p) => p,
        None => return None,
    };
    match numbers_at(v, id_at) {
        Some((window_id, process_id)) => Some(
            FocusedWindowInfo {
                owner_name: string_of(&owner),
                window_name: string_of(&name),
                window_id,
                process_id,
            },
        ),
        None => None,
    }
}

/// Reads a saved window back: the window whose saved form `text` is, or
/// `None` when `text` is the saved form of no window.
pub fn read_focus_state(text: &str) -> (r: Option<FocusedWindowInfo>)
    ensures
        match r {
            Some(info) => focus_json(fields_of(info)) == text@,
            None => forall|w: WindowFields| focus_json(w) != text@,
        },
{
    let v = chars_of(text);
    match fields_at(&v) {
        Some(info) => {
            let again = focus_state_json(&info);
            let original = text.to_owned();
            if again == original {
                Some(info)
            } else {
                proof {
                    assert forall|w: WindowFields| focus_json(w) != text@ by {
                        if focus_json(w) == text@ {
                            lemma_focus_json_round_trip(w);
                        }
                    }
                }
                None
            }
        },
        None => {
            proof {
                assert forall|w: WindowFields| focus_json(w) != text@ by {
                    if focus_json(w) == text@ {
                        lemma_focus_json_round_trip(w);
                    }
                }
            }
            None
        },
    }
}

} // verus!
