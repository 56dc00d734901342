//! The round-trip law of the document format: a registry or configuration
//! document written by this library reads back as exactly the value it
//! was written from.

use vstd::prelude::*;
use vstd::arithmetic::div_mod::lemma_fundamental_div_mod;
use vstd::utf8::char_u32_cast;
use crate::domain::{AppView, ConfigView};
use crate::jsonspec::{
    app_json, apps_json_inner, config_json, esc_char, esc_str, hex_digit, jopt, jstr,
    registry_json, sp_app, sp_apps, sp_apps_more, sp_config, sp_field, sp_obj3, sp_obj3_more,
    sp_registry, sp_str_body, sp_ws, unhex,
};
use crate::text::is_ws;

verus! {

/// Every character is whitespace.
pub open spec fn all_ws(w: Seq<char>) -> bool {
    forall|i: int| 0 <= i < w.len() ==> is_ws(#[trigger] w[i])
}

/// No character needs escaping inside a quoted string.
pub open spec fn plain(k: Seq<char>) -> bool {
    forall|i: int| 0 <= i < k.len() ==> #[trigger] k[i] != '"' && k[i] != '\\' && (k[i] as u32)
        >= 0x20
}

/// Skipping whitespace passes over a whitespace prefix and stops at the
/// first character that is none.
proof fn lemma_ws_skip(w: Seq<char>, rest: Seq<char>)
    requires
        all_ws(w),
        rest.len() > 0 ==> !is_ws(rest[0]),
    ensures
        sp_ws(w + rest) == rest,
    decreases w.len(),
{
    if w.len() == 0 {
        assert(w + rest =~= rest);
        if rest.len() == 0 {
        } else {
            assert(!is_ws(rest[0]));
        }
    } else {
        assert((w + rest)[0] == w[0]);
        assert((w + rest).skip(1) =~= w.skip(1) + rest);
        lemma_ws_skip(w.skip(1), rest);
    }
}

/// A string body with no escapes reads back as itself.
proof fn lemma_plain_body(k: Seq<char>, rest: Seq<char>)
    requires
        plain(k),
    ensures
        sp_str_body(k + seq!['"'] + rest) == Some((k, rest)),
    decreases k.len(),
{
    let s = k + seq!['"'] + rest;
    if k.len() == 0 {
        assert(s[0] == '"');
        assert(s.skip(1) =~= rest);
        assert(k =~= Seq::<char>::empty());
    } else {
        assert(s[0] == k[0]);
        assert(s.skip(1) =~= k.skip(1) + seq!['"'] + rest);
        lemma_plain_body(k.skip(1), rest);
        assert(seq![k[0]] + k.skip(1) =~= k);
    }
}

/// The value of a hex digit character is the value it was written from.
proof fn lemma_unhex_hex(n: int)
    requires
        0 <= n < 16,
    ensures
        unhex(hex_digit(n)) == Some(n),
{
}

/// An escaped string body reads back as the string it was written from.
proof fn lemma_esc_body(t: Seq<char>, rest: Seq<char>)
    ensures
        sp_str_body(esc_str(t) + seq!['"'] + rest) == Some((t, rest)),
    decreases t.len(),
{
    let s = esc_str(t) + seq!['"'] + rest;
    if t.len() == 0 {
        assert(esc_str(t) =~= Seq::<char>::empty());
        assert(s[0] == '"');
        assert(s.skip(1) =~= rest);
    } else {
        let c = t[0];
        let tail = esc_str(t.skip(1)) + seq!['"'] + rest;
        assert(s =~= esc_char(c) + tail);
        lemma_esc_body(t.skip(1), rest);
        assert(seq![c] + t.skip(1) =~= t);
        if c == '"' || c == '\\' || c == '\u{8}' || c == '\t' || c == '\n' || c == '\u{c}'
            || c == '\r' {
            assert(esc_char(c).len() == 2);
            assert(s[0] == esc_char(c)[0]);
            assert(s[1] == esc_char(c)[1]);
            assert(s[0] == '\\');
            assert(s.skip(2) =~= tail);
        } else if (c as u32) < 0x20 {
            let n = (c as u32) as int;
            assert(esc_char(c) == seq!['\\', 'u', '0', '0', hex_digit(n / 16), hex_digit(n % 16)]);
            assert(esc_char(c).len() == 6);
            assert(s[0] == '\\');
            assert(s[1] == 'u');
            assert(s[2] == '0');
            assert(s[3] == '0');
            assert(s[4] == hex_digit(n / 16));
            assert(s[5] == hex_digit(n % 16));
            assert(unhex('0') == Some(0int));
            lemma_unhex_hex(n / 16);
            lemma_unhex_hex(n % 16);
            lemma_fundamental_div_mod(n, 16);
            let code = 0int * 4096 + 0int * 256 + (n / 16) * 16 + n % 16;
            assert(code == n);
            assert(code < 0xD800);
            assert(s.skip(6) =~= tail);
            char_u32_cast(c, c as u32);
            assert((code as u32) as char == c);
        } else {
            assert(esc_char(c) =~= seq![c]);
            assert(s[0] == c);
            assert(s.skip(1) =~= tail);
        }
    }
}

/// One written field reads back as its key and value.
proof fn lemma_field_rt(w: Seq<char>, k: Seq<char>, v: Option<Seq<char>>, rest: Seq<char>)
    requires
        all_ws(w),
        plain(k),
    ensures
        sp_field(w + seq!['"'] + k + seq!['"', ':', ' '] + jopt(v) + rest) == Some(((k, v), rest)),
{
    let s = w + seq!['"'] + k + seq!['"', ':', ' '] + jopt(v) + rest;
    let after_ws = seq!['"'] + k + seq!['"', ':', ' '] + jopt(v) + rest;
    assert(s =~= w + after_ws);
    assert(after_ws[0] == '"');
    lemma_ws_skip(w, after_ws);
    let t = sp_ws(s);
    assert(t == after_ws);
    assert(t.skip(1) =~= k + seq!['"'] + (seq![':', ' '] + jopt(v) + rest));
    lemma_plain_body(k, seq![':', ' '] + jopt(v) + rest);
    let r1 = seq![':', ' '] + jopt(v) + rest;
    assert(sp_str_body(t.skip(1)) == Some((k, r1)));
    assert(r1[0] == ':');
    assert(!is_ws(':'));
    assert(sp_ws(r1) == r1) by {
        lemma_ws_skip(Seq::<char>::empty(), r1);
        assert(Seq::<char>::empty() + r1 =~= r1);
    }
    assert(r1.skip(1) =~= seq![' '] + (jopt(v) + rest));
    let r3in = jopt(v) + rest;
    assert(all_ws(seq![' ']));
    match v {
        Some(u) => {
            assert(jopt(v) == jstr(u));
            assert(jstr(u)[0] == '"');
            assert(r3in[0] == '"');
            lemma_ws_skip(seq![' '], r3in);
            assert(sp_ws(r1.skip(1)) == r3in);
            assert(r3in.skip(1) =~= esc_str(u) + seq!['"'] + rest);
            lemma_esc_body(u, rest);
        },
        None => {
            assert(jopt(v) == "null"@);
            reveal_strlit("null");
            assert(r3in[0] == 'n');
            lemma_ws_skip(seq![' '], r3in);
            assert(sp_ws(r1.skip(1)) == r3in);
            assert(r3in.len() >= 4);
            assert(r3in[1] == 'u');
            assert(r3in[2] == 'l');
            assert(r3in[3] == 'l');
            assert(r3in[0] != '"');
            assert(r3in.skip(4) =~= rest);
        },
    }
}

/// The text of one written field, for stating the object law.
pub open spec fn field_text(w: Seq<char>, k: Seq<char>, v: Option<Seq<char>>) -> Seq<char> {
    w + seq!['"'] + k + seq!['"', ':', ' '] + jopt(v)
}

/// A written three-field object reads back as its three values.
proof fn lemma_obj3_rt(
    pre: Seq<char>,
    w1: Seq<char>,
    w2: Seq<char>,
    w3: Seq<char>,
    wend: Seq<char>,
    k1: Seq<char>,
    k2: Seq<char>,
    k3: Seq<char>,
    v1: Seq<char>,
    v2: Seq<char>,
    v3: Option<Seq<char>>,
    rest: Seq<char>,
)
    requires
        all_ws(pre),
        all_ws(w1),
        all_ws(w2),
        all_ws(w3),
        all_ws(wend),
        plain(k1),
        plain(k2),
        plain(k3),
        k1 != k2,
        k1 != k3,
        k2 != k3,
    ensures
        sp_obj3(
            pre + seq!['{'] + field_text(w1, k1, Some(v1)) + seq![','] + field_text(
                w2,
                k2,
                Some(v2),
            ) + seq![','] + field_text(w3, k3, v3) + wend + seq!['}'] + rest,
            k1,
            k2,
            k3,
        ) == Some(((v1, v2, v3), rest)),
{
    let f1 = field_text(w1, k1, Some(v1));
    let f2 = field_text(w2, k2, Some(v2));
    let f3 = field_text(w3, k3, v3);
    let s = pre + seq!['{'] + f1 + seq![','] + f2 + seq![','] + f3 + wend + seq!['}'] + rest;
    let after_pre = seq!['{'] + f1 + seq![','] + f2 + seq![','] + f3 + wend + seq!['}'] + rest;
    assert(s =~= pre + after_pre);
    assert(after_pre[0] == '{');
    lemma_ws_skip(pre, after_pre);
    let t = sp_ws(s);
    assert(t == after_pre);
    let rest1 = seq![','] + f2 + seq![','] + f3 + wend + seq!['}'] + rest;
    let rest2 = seq![','] + f3 + wend + seq!['}'] + rest;
    let rest3 = wend + seq!['}'] + rest;
    assert(t.skip(1) =~= w1 + seq!['"'] + k1 + seq!['"', ':', ' '] + jopt(Some(v1)) + rest1);
    lemma_field_rt(w1, k1, Some(v1), rest1);
    assert(sp_field(t.skip(1)) == Some(((k1, Some(v1)), rest1)));
    let acc1 = (Some(Some(v1)), None::<Option<Seq<char>>>, None::<Option<Seq<char>>>);
    assert(sp_obj3(s, k1, k2, k3) == sp_obj3_more(rest1, k1, k2, k3, acc1, 2));
    // second field
    assert(rest1[0] == ',');
    assert(!is_ws(','));
    assert(sp_ws(rest1) == rest1) by {
        lemma_ws_skip(Seq::<char>::empty(), rest1);
        assert(Seq::<char>::empty() + rest1 =~= rest1);
    }
    assert(rest1.skip(1) =~= w2 + seq!['"'] + k2 + seq!['"', ':', ' '] + jopt(Some(v2)) + rest2);
    lemma_field_rt(w2, k2, Some(v2), rest2);
    let acc2 = (Some(Some(v1)), Some(Some(v2)), None::<Option<Seq<char>>>);
    assert(sp_obj3_more(rest1, k1, k2, k3, acc1, 2) == sp_obj3_more(rest2, k1, k2, k3, acc2, 1));
    // third field
    assert(rest2[0] == ',');
    assert(sp_ws(rest2) == rest2) by {
        lemma_ws_skip(Seq::<char>::empty(), rest2);
        assert(Seq::<char>::empty() + rest2 =~= rest2);
    }
    assert(rest2.skip(1) =~= w3 + seq!['"'] + k3 + seq!['"', ':', ' '] + jopt(v3) + rest3);
    lemma_field_rt(w3, k3, v3, rest3);
    let acc3 = (Some(Some(v1)), Some(Some(v2)), Some(v3));
    assert(sp_obj3_more(rest2, k1, k2, k3, acc2, 1) == sp_obj3_more(rest3, k1, k2, k3, acc3, 0));
    // closing brace
    let closing = seq!['}'] + rest;
    assert(rest3 =~= wend + closing);
    assert(closing[0] == '}');
    assert(!is_ws('}'));
    lemma_ws_skip(wend, closing);
    assert(sp_ws(rest3) == closing);
    assert(closing.skip(1) =~= rest);
}

/// The keys of a registry entry are mutually distinct plain strings.
proof fn lemma_app_keys()
    ensures
        plain("name"@),
        plain("url"@),
        plain("icon"@),
        "name"@ != "url"@,
        "name"@ != "icon"@,
        "url"@ != "icon"@,
{
    reveal_strlit("name");
    reveal_strlit("url");
    reveal_strlit("icon");
    assert(plain("name"@)) by {
        assert(forall|i: int| 0 <= i < "name"@.len() ==> #[trigger] "name"@[i] != '"' && "name"@[i]
            != '\\' && ("name"@[i] as u32) >= 0x20) by {
            assert("name"@[0] == 'n' && "name"@[1] == 'a' && "name"@[2] == 'm' && "name"@[3]
                == 'e');
        }
    }
    assert(plain("url"@)) by {
        assert(forall|i: int| 0 <= i < "url"@.len() ==> #[trigger] "url"@[i] != '"' && "url"@[i]
            != '\\' && ("url"@[i] as u32) >= 0x20) by {
            assert("url"@[0] == 'u' && "url"@[1] == 'r' && "url"@[2] == 'l');
        }
    }
    assert(plain("icon"@)) by {
        assert(forall|i: int| 0 <= i < "icon"@.len() ==> #[trigger] "icon"@[i] != '"' && "icon"@[i]
            != '\\' && ("icon"@[i] as u32) >= 0x20) by {
            assert("icon"@[0] == 'i' && "icon"@[1] == 'c' && "icon"@[2] == 'o' && "icon"@[3]
                == 'n');
        }
    }
}

/// A written registry entry, after any whitespace, reads back as itself.
proof fn lemma_app_rt(w: Seq<char>, a: AppView, rest: Seq<char>)
    requires
        all_ws(w),
    ensures
        sp_app(w + app_json(a) + rest) == Some((a, rest)),
{
    reveal_strlit("  {\n    \"name\": ");
    reveal_strlit(",\n    \"url\": ");
    reveal_strlit(",\n    \"icon\": ");
    reveal_strlit("\n  }");
    reveal_strlit("name");
    reveal_strlit("url");
    reveal_strlit("icon");
    lemma_app_keys();
    let pre = w + "  "@;
    let w1 = "\n    "@;
    let wend = "\n  "@;
    reveal_strlit("  ");
    reveal_strlit("\n    ");
    reveal_strlit("\n  ");
    assert(all_ws(pre)) by {
        assert(forall|i: int| 0 <= i < pre.len() ==> is_ws(#[trigger] pre[i])) by {
            assert("  "@[0] == ' ' && "  "@[1] == ' ');
            assert(forall|i: int| 0 <= i < pre.len() && i < w.len() ==> is_ws(#[trigger] pre[i]));
            assert(forall|i: int| w.len() <= i < pre.len() ==> is_ws(#[trigger] pre[i]));
        }
    }
    assert(all_ws(w1)) by {
        assert(w1[0] == '\n' && w1[1] == ' ' && w1[2] == ' ' && w1[3] == ' ' && w1[4] == ' ');
    }
    assert(all_ws(wend)) by {
        assert(wend[0] == '\n' && wend[1] == ' ' && wend[2] == ' ');
    }
    let body = pre + seq!['{'] + field_text(w1, "name"@, Some(a.name)) + seq![','] + field_text(
        w1,
        "url"@,
        Some(a.url),
    ) + seq![','] + field_text(w1, "icon"@, a.icon) + wend + seq!['}'] + rest;
    assert(w + app_json(a) + rest =~= body);
    lemma_obj3_rt(
        pre,
        w1,
        w1,
        w1,
        wend,
        "name"@,
        "url"@,
        "icon"@,
        a.name,
        a.url,
        a.icon,
        rest,
    );
}

/// The text of the entries after the first, each preceded by the
/// separator.
pub open spec fn tail_text(s: Seq<AppView>) -> Seq<char>
    decreases s.len(),
{
    if s.len() == 0 {
        Seq::empty()
    } else {
        ",\n"@ + app_json(s[0]) + tail_text(s.skip(1))
    }
}

/// The joined entries are the first entry's text followed by the tail.
proof fn lemma_inner_tail(apps: Seq<AppView>)
    requires
        apps.len() > 0,
    ensures
        apps_json_inner(apps) == app_json(apps[0]) + tail_text(apps.skip(1)),
    decreases apps.len(),
{
    if apps.len() == 1 {
        assert(apps.skip(1) =~= Seq::<AppView>::empty());
        assert(app_json(apps[0]) + tail_text(apps.skip(1)) =~= app_json(apps[0]));
    } else {
        lemma_inner_tail(apps.skip(1));
        assert(apps.skip(1)[0] == apps[1]);
        assert(apps.skip(1).skip(1) =~= apps.skip(2));
        assert(tail_text(apps.skip(1)) == ",\n"@ + app_json(apps[1]) + tail_text(apps.skip(2)));
        assert(apps_json_inner(apps) == app_json(apps[0]) + ",\n"@ + apps_json_inner(
            apps.skip(1),
        ));
        assert(app_json(apps[0]) + ",\n"@ + apps_json_inner(apps.skip(1)) =~= app_json(apps[0])
            + tail_text(apps.skip(1)));
    }
}

/// Reading the rest of the array consumes the written tail and closing
/// bracket, accumulating every remaining entry.
proof fn lemma_apps_more_rt(acc: Seq<AppView>, s: Seq<AppView>, rest: Seq<char>)
    ensures
        sp_apps_more(tail_text(s) + "\n]"@ + rest, acc) == Some((acc + s, rest)),
    decreases s.len(),
{
    reveal_strlit("\n]");
    reveal_strlit(",\n");
    let input = tail_text(s) + "\n]"@ + rest;
    if s.len() == 0 {
        let closing = seq![']'] + rest;
        assert(input =~= seq!['\n'] + closing);
        assert(all_ws(seq!['\n']));
        assert(closing[0] == ']');
        assert(!is_ws(']'));
        lemma_ws_skip(seq!['\n'], closing);
        assert(sp_ws(input) == closing);
        assert(closing.skip(1) =~= rest);
        assert(acc + s =~= acc);
    } else {
        let after = tail_text(s.skip(1)) + "\n]"@ + rest;
        assert(input =~= seq![','] + (seq!['\n'] + app_json(s[0]) + after));
        assert(input[0] == ',');
        assert(!is_ws(','));
        assert(sp_ws(input) == input) by {
            lemma_ws_skip(Seq::<char>::empty(), input);
            assert(Seq::<char>::empty() + input =~= input);
        }
        assert(input.skip(1) =~= seq!['\n'] + app_json(s[0]) + after);
        assert(all_ws(seq!['\n']));
        lemma_app_rt(seq!['\n'], s[0], after);
        assert(sp_app(input.skip(1)) == Some((s[0], after)));
        lemma_apps_more_rt(acc.push(s[0]), s.skip(1), rest);
        assert(acc.push(s[0]) + s.skip(1) =~= acc + s);
    }
}

/// The round-trip law of the registry document: reading back a written
/// registry yields exactly the entries it was written from, for every
/// sequence of entries.
pub proof fn lemma_registry_round_trip(apps: Seq<AppView>)
    ensures
        sp_registry(registry_json(apps)) == Some(apps),
{
    reveal_strlit("[]");
    reveal_strlit("[\n");
    reveal_strlit("  {\n    \"name\": ");
    reveal_strlit("  ");
    if apps.len() == 0 {
        let text = "[]"@;
        assert(text[0] == '[');
        assert(!is_ws('['));
        assert(sp_ws(text) == text) by {
            lemma_ws_skip(Seq::<char>::empty(), text);
            assert(Seq::<char>::empty() + text =~= text);
        }
        assert(text.skip(1) =~= seq![']']);
        assert(sp_ws(seq![']']) == seq![']']) by {
            lemma_ws_skip(Seq::<char>::empty(), seq![']']);
            assert(Seq::<char>::empty() + seq![']'] =~= seq![']']);
        }
        assert(seq![']'].skip(1) =~= Seq::<char>::empty());
        assert(sp_apps(text) == Some((Seq::<AppView>::empty(), Seq::<char>::empty())));
        assert(sp_registry(text) == Some(apps)) by {
            assert(Seq::<AppView>::empty() =~= apps);
        }
    } else {
        let text = registry_json(apps);
        lemma_inner_tail(apps);
        let after = tail_text(apps.skip(1)) + "\n]"@ + Seq::<char>::empty();
        assert(text =~= seq!['['] + (seq!['\n'] + app_json(apps[0]) + after));
        assert(text[0] == '[');
        assert(!is_ws('['));
        assert(sp_ws(text) == text) by {
            lemma_ws_skip(Seq::<char>::empty(), text);
            assert(Seq::<char>::empty() + text =~= text);
        }
        let t1in = text.skip(1);
        assert(t1in =~= seq!['\n'] + app_json(apps[0]) + after);
        // after the whitespace the next character opens the first entry,
        // so the array is not read as empty
        let braced = seq!['{'] + (app_json(apps[0]).skip(3) + after);
        assert(t1in =~= (seq!['\n'] + "  "@) + braced) by {
            assert(app_json(apps[0])[0] == ' ');
            assert(app_json(apps[0])[1] == ' ');
            assert(app_json(apps[0])[2] == '{');
        }
        assert(all_ws(seq!['\n'] + "  "@)) by {
            assert((seq!['\n'] + "  "@)[0] == '\n');
            assert((seq!['\n'] + "  "@)[1] == ' ');
            assert((seq!['\n'] + "  "@)[2] == ' ');
        }
        assert(braced[0] == '{');
        assert(!is_ws('{'));
        lemma_ws_skip(seq!['\n'] + "  "@, braced);
        assert(sp_ws(t1in) == braced);
        assert(braced[0] != ']');
        lemma_app_rt(seq!['\n'], apps[0], after);
        assert(sp_app(t1in) == Some((apps[0], after)));
        lemma_apps_more_rt(seq![apps[0]], apps.skip(1), Seq::<char>::empty());
        assert(seq![apps[0]] + apps.skip(1) =~= apps);
        assert(sp_apps(text) == Some((apps, Seq::<char>::empty())));
        assert(sp_ws(Seq::<char>::empty()) == Seq::<char>::empty());
    }
}

/// The round-trip law of the configuration document.
pub proof fn lemma_config_round_trip(c: ConfigView)
    ensures
        sp_config(config_json(c)) == Some(c),
{
    reveal_strlit("{\n  \"app_data_path\": ");
    reveal_strlit(",\n  \"desktop_data_path\": ");
    reveal_strlit(",\n  \"browser_path\": ");
    reveal_strlit("\n}");
    reveal_strlit("app_data_path");
    reveal_strlit("desktop_data_path");
    reveal_strlit("browser_path");
    reveal_strlit("\n  ");
    reveal_strlit("\n");
    let k1 = "app_data_path"@;
    let k2 = "desktop_data_path"@;
    let k3 = "browser_path"@;
    assert(plain(k1)) by {
        assert(forall|i: int| 0 <= i < k1.len() ==> #[trigger] k1[i] != '"' && k1[i] != '\\' && (
        k1[i] as u32) >= 0x20) by {
            assert(k1[0] == 'a' && k1[1] == 'p' && k1[2] == 'p' && k1[3] == '_' && k1[4] == 'd'
                && k1[5] == 'a' && k1[6] == 't' && k1[7] == 'a' && k1[8] == '_' && k1[9] == 'p'
                && k1[10] == 'a' && k1[11] == 't' && k1[12] == 'h');
        }
    }
    assert(plain(k2)) by {
        assert(forall|i: int| 0 <= i < k2.len() ==> #[trigger] k2[i] != '"' && k2[i] != '\\' && (
        k2[i] as u32) >= 0x20) by {
            assert(k2[0] == 'd' && k2[1] == 'e' && k2[2] == 's' && k2[3] == 'k' && k2[4] == 't'
                && k2[5] == 'o' && k2[6] == 'p' && k2[7] == '_' && k2[8] == 'd' && k2[9] == 'a'
                && k2[10] == 't' && k2[11] == 'a' && k2[12] == '_' && k2[13] == 'p' && k2[14]
                == 'a' && k2[15] == 't' && k2[16] == 'h');
        }
    }
    assert(plain(k3)) by {
        assert(forall|i: int| 0 <= i < k3.len() ==> #[trigger] k3[i] != '"' && k3[i] != '\\' && (
        k3[i] as u32) >= 0x20) by {
            assert(k3[0] == 'b' && k3[1] == 'r' && k3[2] == 'o' && k3[3] == 'w' && k3[4] == 's'
                && k3[5] == 'e' && k3[6] == 'r' && k3[7] == '_' && k3[8] == 'p' && k3[9] == 'a'
                && k3[10] == 't' && k3[11] == 'h');
        }
    }
    let w = "\n  "@;
    assert(all_ws(w)) by {
        assert(w[0] == '\n' && w[1] == ' ' && w[2] == ' ');
    }
    let wend = seq!['\n'];
    assert(all_ws(wend));
    let text = config_json(c);
    let body = Seq::<char>::empty() + seq!['{'] + field_text(w, k1, Some(c.app_data_path))
        + seq![','] + field_text(w, k2, Some(c.desktop_data_path)) + seq![','] + field_text(
        w,
        k3,
        c.browser_path,
    ) + wend + seq!['}'] + Seq::<char>::empty();
    assert(text =~= body);
    lemma_obj3_rt(
        Seq::<char>::empty(),
        w,
        w,
        w,
        wend,
        k1,
        k2,
        k3,
        c.app_data_path,
        c.desktop_data_path,
        c.browser_path,
        Seq::<char>::empty(),
    );
    assert(sp_ws(Seq::<char>::empty()).len() == 0);
}

} // verus!
