//! The executable reader of the registry and configuration documents,
//! proved to accept and decode exactly what the reading functions of
//! `jsonspec` define.

use vstd::prelude::*;
use vstd::utf8::{char_u32_cast, is_scalar};
use vstd::string::StrSliceExecFns;
use crate::domain::{App, Config, reg_view};
use crate::jsonspec::{
    assign3, esc_short, sp_app, sp_apps, sp_apps_more, sp_config, sp_field, sp_obj3,
    sp_obj3_more, sp_registry, sp_str_body, sp_ws, unhex,
};
use crate::text::{chars_to_string, is_ws, str_chars};

verus! {

/// Relies on `char::from_u32`: it returns the character with the given
/// code exactly when the code is a Unicode scalar value.
pub assume_specification[ char::from_u32 ](n: u32) -> (r: Option<char>)
    ensures
        r is Some <==> is_scalar(n),
        r matches Some(c) ==> c as u32 == n,
;

/// Whether the character is document whitespace.
fn ws_char(c: char) -> (r: bool)
    ensures
        r == is_ws(c),
{
    c == ' ' || c == '\t' || c == '\n' || c == '\r'
}

/// The position after any leading whitespace.
fn skip_ws(cs: &Vec<char>, i: usize) -> (j: usize)
    requires
        i <= cs@.len(),
    ensures
        i <= j <= cs@.len(),
        cs@.skip(j as int) == sp_ws(cs@.skip(i as int)),
{
    let mut j: usize = i;
    while j < cs.len() && ws_char(cs[j])
        invariant
            i <= j <= cs@.len(),
            sp_ws(cs@.skip(i as int)) == sp_ws(cs@.skip(j as int)),
        decreases cs@.len() - j,
    {
        proof {
            assert(cs@.skip(j as int)[0] == cs@[j as int]);
            assert(cs@.skip(j as int).skip(1) =~= cs@.skip(j + 1 as int));
        }
        j = j + 1;
    }
    proof {
        if j == cs@.len() {
            assert(cs@.skip(j as int) =~= Seq::<char>::empty());
            assert(sp_ws(cs@.skip(j as int)) == cs@.skip(j as int));
        } else {
            assert(cs@.skip(j as int)[0] == cs@[j as int]);
            assert(sp_ws(cs@.skip(j as int)) == cs@.skip(j as int));
        }
    }
    j
}

/// The value of a hex digit character.
fn unhex_char(c: char) -> (r: Option<u8>)
    ensures
        match r {
            Some(d) => unhex(c) == Some(d as int) && d < 16,
            None => unhex(c) is None,
        },
{
    let n = c as u32;
    if '0' <= c && c <= '9' {
        Some((n - 48) as u8)
    } else if 'a' <= c && c <= 'f' {
        Some((n - 87) as u8)
    } else if 'A' <= c && c <= 'F' {
        Some((n - 55) as u8)
    } else {
        None
    }
}

/// The character a short escape letter stands for.
fn esc_short_char(e: char) -> (r: Option<char>)
    ensures
        r == esc_short(e),
{
    if e == '"' { Some('"') }
    else if e == '\\' { Some('\\') }
    else if e == '/' { Some('/') }
    else if e == 'b' { Some('\u{8}') }
    else if e == 'f' { Some('\u{c}') }
    else if e == 'n' { Some('\n') }
    else if e == 'r' { Some('\r') }
    else if e == 't' { Some('\t') }
    else { None }
}

/// True when the characters of `v` are exactly those of `s`.
fn chars_eq_lit(v: &Vec<char>, s: &str) -> (r: bool)
    ensures
        r == (v@ == s@),
{
    let n = s.unicode_len();
    if v.len() != n {
        return false;
    }
    let mut i: usize = 0;
    while i < n
        invariant
            i <= n,
            n == s@.len(),
            n == v@.len(),
            forall|k: int| 0 <= k < i ==> v@[k] == s@[k],
        decreases n - i,
    {
        if v[i] != s.get_char(i) {
            return false;
        }
        i = i + 1;
    }
    assert(v@ =~= s@);
    true
}

/// Reads a quoted string's body starting right after the opening quote,
/// returning the decoded characters and the position after the closing
/// quote.
fn parse_str_body(cs: &Vec<char>, i: usize) -> (r: Option<(Vec<char>, usize)>)
    requires
        i <= cs@.len(),
    ensures
        match r {
            Some(p) => {
                &&& i < p.1 <= cs@.len()
                &&& sp_str_body(cs@.skip(i as int)) == Some((p.0@, cs@.skip(p.1 as int)))
            },
            None => sp_str_body(cs@.skip(i as int)) is None,
        },
{
    let mut out: Vec<char> = Vec::new();
    let mut j: usize = i;
    loop
        invariant
            i <= j <= cs@.len(),
            (match sp_str_body(cs@.skip(j as int)) {
                Some(p) => sp_str_body(cs@.skip(i as int)) == Some((out@ + p.0, p.1)),
                None => sp_str_body(cs@.skip(i as int)) is None,
            }),
        decreases cs@.len() - j,
    {
        let ghost s = cs@.skip(j as int);
        if j == cs.len() {
            proof {
                assert(s =~= Seq::<char>::empty());
            }
            return None;
        }
        let c = cs[j];
        proof {
            assert(s[0] == c);
            assert(s.skip(1) =~= cs@.skip(j + 1 as int));
        }
        if c == '"' {
            proof {
                assert(sp_str_body(s) == Some((Seq::<char>::empty(), cs@.skip(j + 1 as int))));
                assert(out@ + Seq::<char>::empty() =~= out@);
            }
            return Some((out, j + 1));
        } else if c == '\\' {
            if cs.len() - j < 2 {
                return None;
            }
            let e = cs[j + 1];
            proof {
                assert(s[1] == e);
            }
            if e == 'u' {
                if cs.len() - j < 6 {
                    return None;
                }
                proof {
                    assert(s[2] == cs@[j + 2 as int]);
                    assert(s[3] == cs@[j + 3 as int]);
                    assert(s[4] == cs@[j + 4 as int]);
                    assert(s[5] == cs@[j + 5 as int]);
                    assert(s.skip(6) =~= cs@.skip(j + 6 as int));
                }
                let d1 = match unhex_char(cs[j + 2]) {
                    Some(d) => d,
                    None => {
                        return None;
                    },
                };
                let d2 = match unhex_char(cs[j + 3]) {
                    Some(d) => d,
                    None => {
                        return None;
                    },
                };
                let d3 = match unhex_char(cs[j + 4]) {
                    Some(d) => d,
                    None => {
                        return None;
                    },
                };
                let d4 = match unhex_char(cs[j + 5]) {
                    Some(d) => d,
                    None => {
                        return None;
                    },
                };
                let code: u32 = (d1 as u32) * 4096 + (d2 as u32) * 256 + (d3 as u32) * 16 + (
                d4 as u32);
                if 0xD800 <= code && code < 0xE000 {
                    return None;
                }
                let ch = match char::from_u32(code) {
                    Some(ch) => ch,
                    None => {
                        proof {
                            assert(is_scalar(code));
                        }
                        return None;
                    },
                };
                proof {
                    char_u32_cast(ch, code);
                    let codei = unhex(s[2])->0 * 4096 + unhex(s[3])->0 * 256 + unhex(s[4])->0 * 16
                        + unhex(s[5])->0;
                    assert(codei == code as int);
                    assert((codei as u32) as char == ch);
                    match sp_str_body(cs@.skip(j + 6 as int)) {
                        Some(p) => {
                            assert(sp_str_body(s) == Some((seq![ch] + p.0, p.1)));
                            assert(out@ + (seq![ch] + p.0) =~= out@.push(ch) + p.0);
                        },
                        None => {
                            assert(sp_str_body(s) is None);
                        },
                    }
                }
                out.push(ch);
                j = j + 6;
            } else {
                let d = match esc_short_char(e) {
                    Some(d) => d,
                    None => {
                        return None;
                    },
                };
                proof {
                    assert(s.skip(2) =~= cs@.skip(j + 2 as int));
                    match sp_str_body(cs@.skip(j + 2 as int)) {
                        Some(p) => {
                            assert(sp_str_body(s) == Some((seq![d] + p.0, p.1)));
                            assert(out@ + (seq![d] + p.0) =~= out@.push(d) + p.0);
                        },
                        None => {
                            assert(sp_str_body(s) is None);
                        },
                    }
                }
                out.push(d);
                j = j + 2;
            }
        } else if (c as u32) >= 0x20 {
            proof {
                match sp_str_body(cs@.skip(j + 1 as int)) {
                    Some(p) => {
                        assert(sp_str_body(s) == Some((seq![c] + p.0, p.1)));
                        assert(out@ + (seq![c] + p.0) =~= out@.push(c) + p.0);
                    },
                    None => {
                        assert(sp_str_body(s) is None);
                    },
                }
            }
            out.push(c);
            j = j + 1;
        } else {
            return None;
        }
    }
}

/// The value of an optional string.
pub open spec fn optstr_view(v: Option<String>) -> Option<Seq<char>> {
    match v {
        Some(s) => Some(s@),
        None => None,
    }
}

/// The value of one object slot: not seen yet, or seen with its value.
pub open spec fn slot_view(a: Option<Option<String>>) -> Option<Option<Seq<char>>> {
    match a {
        Some(v) => Some(optstr_view(v)),
        None => None,
    }
}

/// Reads one `"key": value` pair after any leading whitespace.
fn parse_field(cs: &Vec<char>, i: usize) -> (r: Option<(Vec<char>, Option<String>, usize)>)
    requires
        i <= cs@.len(),
    ensures
        match r {
            Some(f) => {
                &&& i < f.2 <= cs@.len()
                &&& sp_field(cs@.skip(i as int)) == Some(
                    ((f.0@, optstr_view(f.1)), cs@.skip(f.2 as int)),
                )
            },
            None => sp_field(cs@.skip(i as int)) is None,
        },
{
    let ghost s0 = cs@.skip(i as int);
    let j0 = skip_ws(cs, i);
    let ghost t = cs@.skip(j0 as int);
    if j0 == cs.len() {
        proof {
            assert(t.len() == 0);
        }
        return None;
    }
    if cs[j0] != '"' {
        proof {
            assert(t[0] == cs@[j0 as int]);
        }
        return None;
    }
    proof {
        assert(t[0] == cs@[j0 as int]);
        assert(t.skip(1) =~= cs@.skip(j0 + 1 as int));
    }
    let (key, j1) = match parse_str_body(cs, j0 + 1) {
        Some(p) => p,
        None => {
            return None;
        },
    };
    let j2 = skip_ws(cs, j1);
    let ghost r2 = cs@.skip(j2 as int);
    if j2 == cs.len() {
        proof {
            assert(r2.len() == 0);
        }
        return None;
    }
    if cs[j2] != ':' {
        proof {
            assert(r2[0] == cs@[j2 as int]);
        }
        return None;
    }
    proof {
        assert(r2[0] == cs@[j2 as int]);
        assert(r2.skip(1) =~= cs@.skip(j2 + 1 as int));
    }
    let j3 = skip_ws(cs, j2 + 1);
    let ghost r3 = cs@.skip(j3 as int);
    if j3 < cs.len() && cs[j3] == '"' {
        proof {
            assert(r3[0] == cs@[j3 as int]);
            assert(r3.skip(1) =~= cs@.skip(j3 + 1 as int));
        }
        let (val, j4) = match parse_str_body(cs, j3 + 1) {
            Some(p) => p,
            None => {
                return None;
            },
        };
        let vs = chars_to_string(&val);
        return Some((key, Some(vs), j4));
    }
    if cs.len() - j3 >= 4 {
        proof {
            assert(r3[0] == cs@[j3 as int]);
            assert(r3[1] == cs@[j3 + 1 as int]);
            assert(r3[2] == cs@[j3 + 2 as int]);
            assert(r3[3] == cs@[j3 + 3 as int]);
            assert(r3.skip(4) =~= cs@.skip(j3 + 4 as int));
        }
        if cs[j3] == 'n' && cs[j3 + 1] == 'u' && cs[j3 + 2] == 'l' && cs[j3 + 3] == 'l' {
            return Some((key, None, j3 + 4));
        }
        return None;
    }
    proof {
        if r3.len() > 0 {
            assert(r3[0] == cs@[j3 as int]);
        }
    }
    None
}

/// Reads one object with exactly the three given keys, in any order.
fn parse_obj3(cs: &Vec<char>, i: usize, k1: &str, k2: &str, k3: &str) -> (r: Option<
    (String, String, Option<String>, usize),
>)
    requires
        i <= cs@.len(),
    ensures
        match r {
            Some(q) => {
                &&& i < q.3 <= cs@.len()
                &&& sp_obj3(cs@.skip(i as int), k1@, k2@, k3@) == Some(
                    ((q.0@, q.1@, optstr_view(q.2)), cs@.skip(q.3 as int)),
                )
            },
            None => sp_obj3(cs@.skip(i as int), k1@, k2@, k3@) is None,
        },
{
    let ghost s0 = cs@.skip(i as int);
    let j0 = skip_ws(cs, i);
    let ghost t = cs@.skip(j0 as int);
    if j0 == cs.len() {
        proof {
            assert(t.len() == 0);
        }
        return None;
    }
    if cs[j0] != '{' {
        proof {
            assert(t[0] == cs@[j0 as int]);
        }
        return None;
    }
    proof {
        assert(t[0] == cs@[j0 as int]);
        assert(t.skip(1) =~= cs@.skip(j0 + 1 as int));
    }
    let (key, val, j1) = match parse_field(cs, j0 + 1) {
        Some(f) => f,
        None => {
            return None;
        },
    };
    let mut a1: Option<Option<String>> = None;
    let mut a2: Option<Option<String>> = None;
    let mut a3: Option<Option<String>> = None;
    if chars_eq_lit(&key, k1) {
        a1 = Some(val);
    } else if chars_eq_lit(&key, k2) {
        a2 = Some(val);
    } else if chars_eq_lit(&key, k3) {
        a3 = Some(val);
    } else {
        proof {
            assert(assign3((None, None, None), k1@, k2@, k3@, key@, optstr_view(val)) is None);
        }
        return None;
    }
    let mut j: usize = j1;
    let mut rem: u8 = 2;
    loop
        invariant
            i < j <= cs@.len(),
            rem <= 2,
            sp_obj3(cs@.skip(i as int), k1@, k2@, k3@) == sp_obj3_more(
                cs@.skip(j as int),
                k1@,
                k2@,
                k3@,
                (slot_view(a1), slot_view(a2), slot_view(a3)),
                rem as nat,
            ),
        decreases rem,
    {
        let j2 = skip_ws(cs, j);
        let ghost t2 = cs@.skip(j2 as int);
        if j2 == cs.len() {
            proof {
                assert(t2.len() == 0);
            }
            return None;
        }
        proof {
            assert(t2[0] == cs@[j2 as int]);
            assert(t2.skip(1) =~= cs@.skip(j2 + 1 as int));
        }
        if cs[j2] == '}' {
            match (a1, a2, a3) {
                (Some(Some(n)), Some(Some(u)), Some(ic)) => {
                    return Some((n, u, ic, j2 + 1));
                },
                _ => {
                    return None;
                },
            }
        }
        if cs[j2] != ',' {
            return None;
        }
        if rem == 0 {
            return None;
        }
        let (key2, val2, j3) = match parse_field(cs, j2 + 1) {
            Some(f) => f,
            None => {
                return None;
            },
        };
        if chars_eq_lit(&key2, k1) {
            if a1.is_some() {
                return None;
            }
            a1 = Some(val2);
        } else if chars_eq_lit(&key2, k2) {
            if a2.is_some() {
                return None;
            }
            a2 = Some(val2);
        } else if chars_eq_lit(&key2, k3) {
            if a3.is_some() {
                return None;
            }
            a3 = Some(val2);
        } else {
            return None;
        }
        j = j3;
        rem = rem - 1;
    }
}

/// Reads one registry entry.
fn parse_app(cs: &Vec<char>, i: usize) -> (r: Option<(App, usize)>)
    requires
        i <= cs@.len(),
    ensures
        match r {
            Some(p) => {
                &&& i < p.1 <= cs@.len()
                &&& sp_app(cs@.skip(i as int)) == Some((p.0@, cs@.skip(p.1 as int)))
            },
            None => sp_app(cs@.skip(i as int)) is None,
        },
{
    match parse_obj3(cs, i, "name", "url", "icon") {
        Some((name, url, icon, j)) => Some((App { name, url, icon }, j)),
        None => None,
    }
}

/// The registry a whole document holds: the entries of its array, in
/// order, or nothing when the document is not well formed.
pub fn read_registry(text: &str) -> (r: Option<Vec<App>>)
    ensures
        match r {
            Some(apps) => sp_registry(text@) == Some(reg_view(apps@)),
            None => sp_registry(text@) is None,
        },
{
    let cs = str_chars(text);
    proof {
        assert(cs@.skip(0) =~= text@);
    }
    let j0 = skip_ws(&cs, 0);
    let ghost t = cs@.skip(j0 as int);
    if j0 == cs.len() {
        proof {
            assert(t.len() == 0);
        }
        return None;
    }
    if cs[j0] != '[' {
        proof {
            assert(t[0] == cs@[j0 as int]);
        }
        return None;
    }
    proof {
        assert(t[0] == cs@[j0 as int]);
        assert(t.skip(1) =~= cs@.skip(j0 + 1 as int));
    }
    let j1 = skip_ws(&cs, j0 + 1);
    let ghost t1 = cs@.skip(j1 as int);
    if j1 < cs.len() && cs[j1] == ']' {
        proof {
            assert(t1[0] == cs@[j1 as int]);
            assert(t1.skip(1) =~= cs@.skip(j1 + 1 as int));
        }
        let j2 = skip_ws(&cs, j1 + 1);
        if j2 == cs.len() {
            let empty_apps: Vec<App> = Vec::new();
            proof {
                assert(cs@.skip(j2 as int) =~= Seq::<char>::empty());
                assert(reg_view(empty_apps@) =~= Seq::<crate::domain::AppView>::empty());
            }
            return Some(empty_apps);
        }
        return None;
    }
    proof {
        if t1.len() > 0 {
            assert(t1[0] == cs@[j1 as int]);
        }
    }
    let (first, mut j) = match parse_app(&cs, j0 + 1) {
        Some(p) => p,
        None => {
            return None;
        },
    };
    let mut apps: Vec<App> = Vec::new();
    apps.push(first);
    proof {
        assert(reg_view(apps@) =~= seq![apps@[0]@]);
    }
    loop
        invariant
            j <= cs@.len(),
            sp_apps(text@) matches Some(p) ==> sp_apps_more(cs@.skip(j as int), reg_view(apps@))
                == Some(p),
            sp_apps(text@) is None ==> sp_apps_more(cs@.skip(j as int), reg_view(apps@)) is None,
            sp_apps(text@) == sp_apps_more(cs@.skip(j as int), reg_view(apps@)),
        decreases cs@.len() - j,
    {
        let j2 = skip_ws(&cs, j);
        let ghost t2 = cs@.skip(j2 as int);
        if j2 == cs.len() {
            proof {
                assert(t2.len() == 0);
            }
            return None;
        }
        proof {
            assert(t2[0] == cs@[j2 as int]);
            assert(t2.skip(1) =~= cs@.skip(j2 + 1 as int));
        }
        if cs[j2] == ']' {
            let j3 = skip_ws(&cs, j2 + 1);
            if j3 == cs.len() {
                proof {
                    assert(cs@.skip(j3 as int) =~= Seq::<char>::empty());
                }
                return Some(apps);
            }
            return None;
        }
        if cs[j2] != ',' {
            return None;
        }
        let (a, j4) = match parse_app(&cs, j2 + 1) {
            Some(p) => p,
            None => {
                return None;
            },
        };
        proof {
            assert(reg_view(apps@.push(a)) =~= reg_view(apps@).push(a@));
        }
        apps.push(a);
        j = j4;
    }
}

/// The configuration a whole document holds, or nothing when the document
/// is not well formed.
pub fn read_config(text: &str) -> (r: Option<Config>)
    ensures
        match r {
            Some(c) => sp_config(text@) == Some(c@),
            None => sp_config(text@) is None,
        },
{
    let cs = str_chars(text);
    proof {
        assert(cs@.skip(0) =~= text@);
    }
    let (a, d, b, j) = match parse_obj3(&cs, 0, "app_data_path", "desktop_data_path",
        "browser_path") {
        Some(q) => q,
        None => {
            return None;
        },
    };
    let j2 = skip_ws(&cs, j);
    if j2 == cs.len() {
        proof {
            assert(cs@.skip(j2 as int) =~= Seq::<char>::empty());
        }
        return Some(Config { app_data_path: a, desktop_data_path: d, browser_path: b });
    }
    None
}

} // verus!
