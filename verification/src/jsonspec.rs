//! The registry's document format, at the specification level.
//!
//! The registry is persisted as one JSON document: an array of objects
//! `{"name": ..., "url": ..., "icon": ...}`, pretty-printed with two-space
//! indent; the configuration is one object with the keys `app_data_path`,
//! `desktop_data_path` and `browser_path`.  This module defines the exact
//! text a registry value is written as, and a recursive-descent reading of
//! a document back into values.  The executable writer and reader are
//! proved against these functions, and the round-trip law is proved of
//! them in `jsonlaws`.

use vstd::prelude::*;
use crate::domain::{AppView, ConfigView};
use crate::text::is_ws;

verus! {

// ---------- writing ----------

/// The hex digit character for a value below sixteen.
pub open spec fn hex_digit(n: int) -> char {
    if n == 0 { '0' } else if n == 1 { '1' } else if n == 2 { '2' } else if n == 3 { '3' }
    else if n == 4 { '4' } else if n == 5 { '5' } else if n == 6 { '6' } else if n == 7 { '7' }
    else if n == 8 { '8' } else if n == 9 { '9' } else if n == 10 { 'a' } else if n == 11 { 'b' }
    else if n == 12 { 'c' } else if n == 13 { 'd' } else if n == 14 { 'e' } else { 'f' }
}

/// How one character is written inside a quoted string: quotes and
/// backslashes are escaped, the control characters with a short form get
/// it, the remaining control characters are written as `\u00..`, and
/// every other character stands as itself.
pub open spec fn esc_char(c: char) -> Seq<char> {
    if c == '"' {
        seq!['\\', '"']
    } else if c == '\\' {
        seq!['\\', '\\']
    } else if c == '\u{8}' {
        seq!['\\', 'b']
    } else if c == '\t' {
        seq!['\\', 't']
    } else if c == '\n' {
        seq!['\\', 'n']
    } else if c == '\u{c}' {
        seq!['\\', 'f']
    } else if c == '\r' {
        seq!['\\', 'r']
    } else if (c as u32) < 0x20 {
        seq!['\\', 'u', '0', '0', hex_digit((c as u32) as int / 16), hex_digit((c as u32) as int % 16)]
    } else {
        seq![c]
    }
}

/// A whole character sequence, escaped.
pub open spec fn esc_str(s: Seq<char>) -> Seq<char>
    decreases s.len(),
{
    if s.len() == 0 {
        Seq::empty()
    } else {
        esc_char(s[0]) + esc_str(s.skip(1))
    }
}

/// A quoted, escaped string.
pub open spec fn jstr(s: Seq<char>) -> Seq<char> {
    seq!['"'] + esc_str(s) + seq!['"']
}

/// An optional string: a quoted string, or the literal `null`.
pub open spec fn jopt(s: Option<Seq<char>>) -> Seq<char> {
    match s {
        Some(t) => jstr(t),
        None => "null"@,
    }
}

/// One registry entry as it stands inside the document, indented one
/// level.
pub open spec fn app_json(a: AppView) -> Seq<char> {
    "  {\n    \"name\": "@ + jstr(a.name) + ",\n    \"url\": "@ + jstr(a.url)
        + ",\n    \"icon\": "@ + jopt(a.icon) + "\n  }"@
}

/// The entries of a registry, joined by a comma and a line break.
pub open spec fn apps_json_inner(apps: Seq<AppView>) -> Seq<char>
    decreases apps.len(),
{
    if apps.len() == 0 {
        Seq::empty()
    } else if apps.len() == 1 {
        app_json(apps[0])
    } else {
        app_json(apps[0]) + ",\n"@ + apps_json_inner(apps.skip(1))
    }
}

/// The whole registry document.
pub open spec fn registry_json(apps: Seq<AppView>) -> Seq<char> {
    if apps.len() == 0 {
        "[]"@
    } else {
        "[\n"@ + apps_json_inner(apps) + "\n]"@
    }
}

/// The whole configuration document.
pub open spec fn config_json(c: ConfigView) -> Seq<char> {
    "{\n  \"app_data_path\": "@ + jstr(c.app_data_path) + ",\n  \"desktop_data_path\": "@
        + jstr(c.desktop_data_path) + ",\n  \"browser_path\": "@ + jopt(c.browser_path) + "\n}"@
}

// ---------- reading ----------

/// The rest of the text after leading whitespace.
pub open spec fn sp_ws(s: Seq<char>) -> Seq<char>
    decreases s.len(),
{
    if s.len() > 0 && is_ws(s[0]) {
        sp_ws(s.skip(1))
    } else {
        s
    }
}

/// The value of a hex digit character, if it is one.
pub open spec fn unhex(c: char) -> Option<int> {
    let n = c as u32;
    if '0' <= c && c <= '9' {
        Some(n as int - 48)
    } else if 'a' <= c && c <= 'f' {
        Some(n as int - 87)
    } else if 'A' <= c && c <= 'F' {
        Some(n as int - 55)
    } else {
        None
    }
}

/// The character a short escape stands for, if the letter is one.
pub open spec fn esc_short(e: char) -> Option<char> {
    if e == '"' { Some('"') }
    else if e == '\\' { Some('\\') }
    else if e == '/' { Some('/') }
    else if e == 'b' { Some('\u{8}') }
    else if e == 'f' { Some('\u{c}') }
    else if e == 'n' { Some('\n') }
    else if e == 'r' { Some('\r') }
    else if e == 't' { Some('\t') }
    else { None }
}

/// Reads the body of a quoted string, after its opening quote: the decoded
/// characters and the rest of the text after the closing quote.  A raw
/// control character, an unknown escape, or an escaped value that is no
/// Unicode scalar rejects the text.
pub open spec fn sp_str_body(s: Seq<char>) -> Option<(Seq<char>, Seq<char>)>
    decreases s.len(),
{
    if s.len() == 0 {
        None
    } else if s[0] == '"' {
        Some((Seq::empty(), s.skip(1)))
    } else if s[0] == '\\' {
        if s.len() < 2 {
            None
        } else if s[1] == 'u' {
            if s.len() < 6 {
                None
            } else {
                match (unhex(s[2]), unhex(s[3]), unhex(s[4]), unhex(s[5])) {
                    (Some(d1), Some(d2), Some(d3), Some(d4)) => {
                        let code = d1 * 4096 + d2 * 256 + d3 * 16 + d4;
                        if code < 0xD800 || code >= 0xE000 {
                            match sp_str_body(s.skip(6)) {
                                Some((t, r)) => Some((seq![(code as u32) as char] + t, r)),
                                None => None,
                            }
                        } else {
                            None
                        }
                    },
                    _ => None,
                }
            }
        } else {
            match esc_short(s[1]) {
                Some(c) => match sp_str_body(s.skip(2)) {
                    Some((t, r)) => Some((seq![c] + t, r)),
                    None => None,
                },
                None => None,
            }
        }
    } else if (s[0] as u32) >= 0x20 {
        match sp_str_body(s.skip(1)) {
            Some((t, r)) => Some((seq![s[0]] + t, r)),
            None => None,
        }
    } else {
        None
    }
}

/// Reads one `"key": value` pair, where the value is a string or `null`,
/// after skipping leading whitespace.  `None` in the value position of the
/// result stands for `null`.
pub open spec fn sp_field(s: Seq<char>) -> Option<((Seq<char>, Option<Seq<char>>), Seq<char>)> {
    let t = sp_ws(s);
    if t.len() > 0 && t[0] == '"' {
        match sp_str_body(t.skip(1)) {
            Some((key, r1)) => {
                let r2 = sp_ws(r1);
                if r2.len() > 0 && r2[0] == ':' {
                    let r3 = sp_ws(r2.skip(1));
                    if r3.len() > 0 && r3[0] == '"' {
                        match sp_str_body(r3.skip(1)) {
                            Some((v, r4)) => Some(((key, Some(v)), r4)),
                            None => None,
                        }
                    } else if r3.len() >= 4 && r3[0] == 'n' && r3[1] == 'u' && r3[2] == 'l'
                        && r3[3] == 'l' {
                        Some(((key, None), r3.skip(4)))
                    } else {
                        None
                    }
                } else {
                    None
                }
            },
            None => None,
        }
    } else {
        None
    }
}

/// Files a parsed field under whichever of the three known keys it names;
/// an unknown or repeated key rejects the text.
pub open spec fn assign3(
    acc: (Option<Option<Seq<char>>>, Option<Option<Seq<char>>>, Option<Option<Seq<char>>>),
    k1: Seq<char>,
    k2: Seq<char>,
    k3: Seq<char>,
    key: Seq<char>,
    val: Option<Seq<char>>,
) -> Option<(Option<Option<Seq<char>>>, Option<Option<Seq<char>>>, Option<Option<Seq<char>>>)> {
    if key == k1 {
        if acc.0 is None { Some((Some(val), acc.1, acc.2)) } else { None }
    } else if key == k2 {
        if acc.1 is None { Some((acc.0, Some(val), acc.2)) } else { None }
    } else if key == k3 {
        if acc.2 is None { Some((acc.0, acc.1, Some(val))) } else { None }
    } else {
        None
    }
}

/// An object is complete when the first two keys hold strings and the
/// third holds a string or `null`.
pub open spec fn finish3(
    acc: (Option<Option<Seq<char>>>, Option<Option<Seq<char>>>, Option<Option<Seq<char>>>),
) -> Option<(Seq<char>, Seq<char>, Option<Seq<char>>)> {
    match acc {
        (Some(Some(a)), Some(Some(b)), Some(c)) => Some((a, b, c)),
        _ => None,
    }
}

/// Reads the remaining fields of an object after its first one: either the
/// closing brace, or a comma and one more field, at most `remaining` more.
pub open spec fn sp_obj3_more(
    s: Seq<char>,
    k1: Seq<char>,
    k2: Seq<char>,
    k3: Seq<char>,
    acc: (Option<Option<Seq<char>>>, Option<Option<Seq<char>>>, Option<Option<Seq<char>>>),
    remaining: nat,
) -> Option<((Seq<char>, Seq<char>, Option<Seq<char>>), Seq<char>)>
    decreases remaining,
{
    let t = sp_ws(s);
    if t.len() > 0 && t[0] == '}' {
        match finish3(acc) {
            Some(v) => Some((v, t.skip(1))),
            None => None,
        }
    } else if t.len() > 0 && t[0] == ',' && remaining > 0 {
        match sp_field(t.skip(1)) {
            Some(((key, val), r)) => match assign3(acc, k1, k2, k3, key, val) {
                Some(acc2) => sp_obj3_more(r, k1, k2, k3, acc2, (remaining - 1) as nat),
                None => None,
            },
            None => None,
        }
    } else {
        None
    }
}

/// Reads one object with exactly the three given keys, in any order, the
/// first two holding strings and the third a string or `null`.
pub open spec fn sp_obj3(
    s: Seq<char>,
    k1: Seq<char>,
    k2: Seq<char>,
    k3: Seq<char>,
) -> Option<((Seq<char>, Seq<char>, Option<Seq<char>>), Seq<char>)> {
    let t = sp_ws(s);
    if t.len() > 0 && t[0] == '{' {
        match sp_field(t.skip(1)) {
            Some(((key, val), r)) => match assign3((None, None, None), k1, k2, k3, key, val) {
                Some(acc) => sp_obj3_more(r, k1, k2, k3, acc, 2),
                None => None,
            },
            None => None,
        }
    } else {
        None
    }
}

/// Reads one registry entry.
pub open spec fn sp_app(s: Seq<char>) -> Option<(AppView, Seq<char>)> {
    match sp_obj3(s, "name"@, "url"@, "icon"@) {
        Some(((name, url, icon), r)) => Some((AppView { name, url, icon }, r)),
        None => None,
    }
}

/// Reads the entries of the registry array after its first one: either the
/// closing bracket, or a comma and one more entry.
pub open spec fn sp_apps_more(s: Seq<char>, acc: Seq<AppView>) -> Option<(Seq<AppView>, Seq<char>)>
    decreases s.len() via sp_apps_more_decreases
{
    let t = sp_ws(s);
    if t.len() > 0 && t[0] == ']' {
        Some((acc, t.skip(1)))
    } else if t.len() > 0 && t[0] == ',' {
        match sp_app(t.skip(1)) {
            Some((a, r)) => sp_apps_more(r, acc.push(a)),
            None => None,
        }
    } else {
        None
    }
}

#[via_fn]
proof fn sp_apps_more_decreases(s: Seq<char>, acc: Seq<AppView>) {
    let t = sp_ws(s);
    lemma_sp_ws_len(s);
    if t.len() > 0 && t[0] == ',' {
        if sp_app(t.skip(1)) is Some {
            lemma_sp_app_len(t.skip(1));
        }
    }
}

/// Reads the registry array.
pub open spec fn sp_apps(s: Seq<char>) -> Option<(Seq<AppView>, Seq<char>)> {
    let t = sp_ws(s);
    if t.len() > 0 && t[0] == '[' {
        let t1 = sp_ws(t.skip(1));
        if t1.len() > 0 && t1[0] == ']' {
            Some((Seq::empty(), t1.skip(1)))
        } else {
            match sp_app(t.skip(1)) {
                Some((a, r)) => sp_apps_more(r, seq![a]),
                None => None,
            }
        }
    } else {
        None
    }
}

/// The registry a whole document denotes, if it is well formed: the array,
/// with nothing but whitespace around it.
pub open spec fn sp_registry(text: Seq<char>) -> Option<Seq<AppView>> {
    match sp_apps(text) {
        Some((apps, rest)) => if sp_ws(rest).len() == 0 {
            Some(apps)
        } else {
            None
        },
        None => None,
    }
}

/// The configuration a whole document denotes, if it is well formed.
pub open spec fn sp_config(text: Seq<char>) -> Option<ConfigView> {
    match sp_obj3(text, "app_data_path"@, "desktop_data_path"@, "browser_path"@) {
        Some(((a, d, b), rest)) => if sp_ws(rest).len() == 0 {
            Some(ConfigView { app_data_path: a, desktop_data_path: d, browser_path: b })
        } else {
            None
        },
        None => None,
    }
}

/// The registry the store sees behind an optional document: a missing file
/// is an empty registry.
pub open spec fn parsed_registry(contents: Option<Seq<char>>) -> Option<Seq<AppView>> {
    match contents {
        Some(t) => sp_registry(t),
        None => Some(Seq::empty()),
    }
}

// ---------- consumption bounds ----------

/// Skipping whitespace never lengthens the text.
pub proof fn lemma_sp_ws_len(s: Seq<char>)
    ensures
        sp_ws(s).len() <= s.len(),
    decreases s.len(),
{
    if s.len() > 0 && is_ws(s[0]) {
        lemma_sp_ws_len(s.skip(1));
    }
}

/// Reading a string body consumes at least the closing quote.
pub proof fn lemma_sp_str_body_len(s: Seq<char>)
    ensures
        sp_str_body(s) matches Some((t, r)) ==> r.len() < s.len(),
    decreases s.len(),
{
    if s.len() == 0 {
    } else if s[0] == '"' {
    } else if s[0] == '\\' {
        if s.len() >= 6 && s[1] == 'u' {
            lemma_sp_str_body_len(s.skip(6));
        }
        if s.len() >= 2 {
            lemma_sp_str_body_len(s.skip(2));
        }
    } else {
        lemma_sp_str_body_len(s.skip(1));
    }
}

/// Reading a field consumes at least one character.
pub proof fn lemma_sp_field_len(s: Seq<char>)
    ensures
        sp_field(s) matches Some((f, r)) ==> r.len() < s.len(),
{
    let t = sp_ws(s);
    lemma_sp_ws_len(s);
    if t.len() > 0 && t[0] == '"' {
        lemma_sp_str_body_len(t.skip(1));
        match sp_str_body(t.skip(1)) {
            Some((key, r1)) => {
                let r2 = sp_ws(r1);
                lemma_sp_ws_len(r1);
                if r2.len() > 0 && r2[0] == ':' {
                    let r3 = sp_ws(r2.skip(1));
                    lemma_sp_ws_len(r2.skip(1));
                    if r3.len() > 0 && r3[0] == '"' {
                        lemma_sp_str_body_len(r3.skip(1));
                    }
                }
            },
            None => {},
        }
    }
}

/// Reading the rest of an object consumes at least the closing brace.
pub proof fn lemma_sp_obj3_more_len(
    s: Seq<char>,
    k1: Seq<char>,
    k2: Seq<char>,
    k3: Seq<char>,
    acc: (Option<Option<Seq<char>>>, Option<Option<Seq<char>>>, Option<Option<Seq<char>>>),
    remaining: nat,
)
    ensures
        sp_obj3_more(s, k1, k2, k3, acc, remaining) matches Some((v, r)) ==> r.len() < s.len(),
    decreases remaining,
{
    let t = sp_ws(s);
    lemma_sp_ws_len(s);
    if t.len() > 0 && t[0] == ',' && remaining > 0 {
        lemma_sp_field_len(t.skip(1));
        match sp_field(t.skip(1)) {
            Some(((key, val), r)) => match assign3(acc, k1, k2, k3, key, val) {
                Some(acc2) => {
                    lemma_sp_obj3_more_len(r, k1, k2, k3, acc2, (remaining - 1) as nat);
                },
                None => {},
            },
            None => {},
        }
    }
}

/// Reading an object consumes at least its braces.
pub proof fn lemma_sp_obj3_len(s: Seq<char>, k1: Seq<char>, k2: Seq<char>, k3: Seq<char>)
    ensures
        sp_obj3(s, k1, k2, k3) matches Some((v, r)) ==> r.len() < s.len(),
{
    let t = sp_ws(s);
    lemma_sp_ws_len(s);
    if t.len() > 0 && t[0] == '{' {
        lemma_sp_field_len(t.skip(1));
        match sp_field(t.skip(1)) {
            Some(((key, val), r)) => match assign3((None, None, None), k1, k2, k3, key, val) {
                Some(acc) => {
                    lemma_sp_obj3_more_len(r, k1, k2, k3, acc, 2);
                },
                None => {},
            },
            None => {},
        }
    }
}

/// Reading one entry consumes at least its braces.
pub proof fn lemma_sp_app_len(s: Seq<char>)
    ensures
        sp_app(s) matches Some((a, r)) ==> r.len() < s.len(),
{
    lemma_sp_obj3_len(s, "name"@, "url"@, "icon"@);
}

} // verus!
