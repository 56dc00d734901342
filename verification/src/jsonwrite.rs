//! The executable writer of the registry and configuration documents,
//! proved to produce exactly the text that `jsonspec` defines.

use vstd::prelude::*;
use crate::domain::{App, Config, reg_view};
use crate::jsonspec::{
    app_json, apps_json_inner, config_json, esc_char, esc_str, hex_digit, jopt, jstr,
    registry_json,
};
use crate::text::{chars_to_string, push_chars, str_chars};

verus! {

/// Escaping distributes over concatenation.
pub proof fn lemma_esc_str_append(a: Seq<char>, b: Seq<char>)
    ensures
        esc_str(a + b) == esc_str(a) + esc_str(b),
    decreases a.len(),
{
    if a.len() == 0 {
        assert(a + b =~= b);
        assert(esc_str(a) + esc_str(b) =~= esc_str(b));
    } else {
        lemma_esc_str_append(a.skip(1), b);
        assert((a + b).skip(1) =~= a.skip(1) + b);
        assert(esc_char((a + b)[0]) + (esc_str(a.skip(1)) + esc_str(b)) =~= (esc_char(a[0])
            + esc_str(a.skip(1))) + esc_str(b));
    }
}

/// One more entry extends the joined entry list by a separator and the
/// entry's text.
pub proof fn lemma_apps_json_inner_snoc(s: Seq<crate::domain::AppView>, a: crate::domain::AppView)
    ensures
        s.len() == 0 ==> apps_json_inner(s.push(a)) == app_json(a),
        s.len() > 0 ==> apps_json_inner(s.push(a)) == apps_json_inner(s) + ",\n"@ + app_json(a),
    decreases s.len(),
{
    if s.len() == 0 {
        assert(s.push(a).len() == 1);
        assert(s.push(a)[0] == a);
    } else {
        lemma_apps_json_inner_snoc(s.skip(1), a);
        assert(s.push(a).skip(1) =~= s.skip(1).push(a));
        assert(s.push(a)[0] == s[0]);
        if s.len() == 1 {
            assert(apps_json_inner(s.push(a)) == app_json(s[0]) + ",\n"@ + apps_json_inner(
                s.skip(1).push(a),
            ));
            assert(apps_json_inner(s.skip(1).push(a)) == app_json(a));
            assert(apps_json_inner(s) == app_json(s[0]));
        } else {
            assert(apps_json_inner(s) + ",\n"@ + app_json(a) =~= app_json(s[0]) + ",\n"@ + (
            apps_json_inner(s.skip(1)) + ",\n"@ + app_json(a)));
        }
    }
}

/// The hex digit character for a nibble.
fn hex_char(n: u8) -> (c: char)
    requires
        n < 16,
    ensures
        c == hex_digit(n as int),
{
    if n == 0 { '0' } else if n == 1 { '1' } else if n == 2 { '2' } else if n == 3 { '3' }
    else if n == 4 { '4' } else if n == 5 { '5' } else if n == 6 { '6' } else if n == 7 { '7' }
    else if n == 8 { '8' } else if n == 9 { '9' } else if n == 10 { 'a' } else if n == 11 { 'b' }
    else if n == 12 { 'c' } else if n == 13 { 'd' } else if n == 14 { 'e' } else { 'f' }
}

/// Appends the escaped form of one character.
fn push_esc_char(out: &mut Vec<char>, c: char)
    ensures
        final(out)@ == old(out)@ + esc_char(c),
{
    if c == '"' {
        out.push('\\');
        out.push('"');
    } else if c == '\\' {
        out.push('\\');
        out.push('\\');
    } else if c == '\u{8}' {
        out.push('\\');
        out.push('b');
    } else if c == '\t' {
        out.push('\\');
        out.push('t');
    } else if c == '\n' {
        out.push('\\');
        out.push('n');
    } else if c == '\u{c}' {
        out.push('\\');
        out.push('f');
    } else if c == '\r' {
        out.push('\\');
        out.push('r');
    } else if (c as u32) < 0x20 {
        let n = c as u32;
        out.push('\\');
        out.push('u');
        out.push('0');
        out.push('0');
        out.push(hex_char((n / 16) as u8));
        out.push(hex_char((n % 16) as u8));
    } else {
        out.push(c);
    }
    assert(final(out)@ =~= old(out)@ + esc_char(c));
}

/// Appends a quoted, escaped string.
fn push_jstr(out: &mut Vec<char>, s: &str)
    ensures
        final(out)@ == old(out)@ + jstr(s@),
{
    let cs = str_chars(s);
    out.push('"');
    let ghost mid = out@;
    let n = cs.len();
    let mut i: usize = 0;
    while i < n
        invariant
            i <= n,
            n == cs@.len(),
            cs@ == s@,
            mid == old(out)@ + seq!['"'],
            out@ == mid + esc_str(s@.subrange(0, i as int)),
        decreases n - i,
    {
        proof {
            lemma_esc_str_append(s@.subrange(0, i as int), seq![s@[i as int]]);
            assert(s@.subrange(0, i + 1 as int) =~= s@.subrange(0, i as int) + seq![s@[i as int]]);
            let cseq = seq![s@[i as int]];
            assert(cseq.skip(1) =~= Seq::<char>::empty());
            assert(esc_str(Seq::<char>::empty()) == Seq::<char>::empty());
            assert(esc_str(cseq) == esc_char(cseq[0]) + esc_str(cseq.skip(1)));
            assert(esc_str(cseq) =~= esc_char(s@[i as int]));
        }
        push_esc_char(out, cs[i]);
        i = i + 1;
    }
    out.push('"');
    proof {
        assert(s@.subrange(0, n as int) =~= s@);
        assert(final(out)@ =~= old(out)@ + jstr(s@));
    }
}

/// Appends a quoted string or the literal `null`.
fn push_jopt(out: &mut Vec<char>, s: &Option<String>)
    ensures
        final(out)@ == old(out)@ + jopt(match s {
            Some(t) => Some(t@),
            None => None,
        }),
{
    match s {
        Some(t) => push_jstr(out, t.as_str()),
        None => push_chars(out, "null"),
    }
}

/// Appends one registry entry.
fn push_app(out: &mut Vec<char>, app: &App)
    ensures
        final(out)@ == old(out)@ + app_json(app@),
{
    push_chars(out, "  {\n    \"name\": ");
    push_jstr(out, app.name.as_str());
    push_chars(out, ",\n    \"url\": ");
    push_jstr(out, app.url.as_str());
    push_chars(out, ",\n    \"icon\": ");
    push_jopt(out, &app.icon);
    push_chars(out, "\n  }");
    assert(final(out)@ =~= old(out)@ + app_json(app@));
}

/// The registry document that holds exactly the given entries, in order.
pub fn write_registry(apps: &Vec<App>) -> (r: String)
    ensures
        r@ == registry_json(reg_view(apps@)),
{
    if apps.len() == 0 {
        let r = "[]".to_owned();
        return r;
    }
    let mut out: Vec<char> = Vec::new();
    push_chars(&mut out, "[\n");
    let n = apps.len();
    let mut i: usize = 0;
    while i < n
        invariant
            i <= n,
            n == apps@.len(),
            n > 0,
            i > 0 ==> out@ == "[\n"@ + apps_json_inner(reg_view(apps@).subrange(0, i as int)),
            i == 0 ==> out@ == "[\n"@,
        decreases n - i,
    {
        if i > 0 {
            push_chars(&mut out, ",\n");
        }
        push_app(&mut out, &apps[i]);
        proof {
            let vs = reg_view(apps@);
            lemma_apps_json_inner_snoc(vs.subrange(0, i as int), vs[i as int]);
            assert(vs.subrange(0, i + 1 as int) =~= vs.subrange(0, i as int).push(vs[i as int]));
            assert(vs[i as int] == apps@[i as int]@);
            if i > 0 {
                assert(out@ =~= "[\n"@ + apps_json_inner(vs.subrange(0, i + 1 as int)));
            } else {
                assert(out@ =~= "[\n"@ + apps_json_inner(vs.subrange(0, 1 as int)));
            }
        }
        i = i + 1;
    }
    push_chars(&mut out, "\n]");
    proof {
        assert(reg_view(apps@).subrange(0, n as int) =~= reg_view(apps@));
        assert(out@ =~= registry_json(reg_view(apps@)));
    }
    chars_to_string(&out)
}

/// The configuration document for the given configuration.
pub fn write_config(config: &Config) -> (r: String)
    ensures
        r@ == config_json(config@),
{
    let mut out: Vec<char> = Vec::new();
    push_chars(&mut out, "{\n  \"app_data_path\": ");
    push_jstr(&mut out, config.app_data_path.as_str());
    push_chars(&mut out, ",\n  \"desktop_data_path\": ");
    push_jstr(&mut out, config.desktop_data_path.as_str());
    push_chars(&mut out, ",\n  \"browser_path\": ");
    push_jopt(&mut out, &config.browser_path);
    push_chars(&mut out, "\n}");
    assert(out@ =~= config_json(config@));
    chars_to_string(&out)
}

} // verus!
