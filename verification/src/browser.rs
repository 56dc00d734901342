//! The browser resolver: when no browser is configured, the caller asks
//! the desktop environment for the default browser's launcher name and
//! walks a fixed cascade of probes — two launcher-file locations whose
//! `Exec=` line names the executable, then three binary directories.
//! The probe order and the launcher-file parsing are decided here; the
//! caller only checks for files and reads them.

use vstd::prelude::*;
use vstd::string::StringExecFns;
use crate::text::{chars_to_string, is_ws, str_chars};

verus! {

/// The position of the first line break, or the length when there is
/// none.
pub open spec fn first_nl(s: Seq<char>) -> int
    decreases s.len(),
{
    if s.len() == 0 {
        0
    } else if s[0] == '\n' {
        0
    } else {
        1 + first_nl(s.skip(1))
    }
}

/// The position of the first character that is no whitespace, or the
/// length when all are.
pub open spec fn first_non_ws(s: Seq<char>) -> int
    decreases s.len(),
{
    if s.len() == 0 {
        0
    } else if !is_ws(s[0]) {
        0
    } else {
        1 + first_non_ws(s.skip(1))
    }
}

/// The position of the first whitespace character, or the length when
/// there is none.
pub open spec fn first_ws(s: Seq<char>) -> int
    decreases s.len(),
{
    if s.len() == 0 {
        0
    } else if is_ws(s[0]) {
        0
    } else {
        1 + first_ws(s.skip(1))
    }
}

/// The position of the first placeholder marker, or the length when
/// there is none.
pub open spec fn first_pct(s: Seq<char>) -> int
    decreases s.len(),
{
    if s.len() == 0 {
        0
    } else if s[0] == '%' {
        0
    } else {
        1 + first_pct(s.skip(1))
    }
}

proof fn lemma_first_nl(s: Seq<char>)
    ensures
        0 <= first_nl(s) <= s.len(),
    decreases s.len(),
{
    if s.len() > 0 && s[0] != '\n' {
        lemma_first_nl(s.skip(1));
    }
}

/// True when the line names the command to execute.
pub open spec fn is_exec_line(l: Seq<char>) -> bool {
    l.len() >= 5 && l.subrange(0, 5) == "Exec="@
}

/// The executable named by an `Exec=` line's remainder: its first
/// whitespace-delimited token, truncated at the first placeholder
/// marker; nothing when the remainder holds no token.
pub open spec fn exec_token(rest: Seq<char>) -> Option<Seq<char>> {
    let a = first_non_ws(rest);
    if a >= rest.len() {
        None
    } else {
        let tok = rest.subrange(a, a + first_ws(rest.skip(a)));
        Some(tok.subrange(0, first_pct(tok)))
    }
}

/// The executable a launcher file names: the token of the first `Exec=`
/// line that has one.
pub open spec fn exec_of_content(s: Seq<char>) -> Option<Seq<char>>
    decreases s.len() via exec_of_content_decreases
{
    if s.len() == 0 {
        None
    } else {
        let nl = first_nl(s);
        let line = s.subrange(0, nl);
        let here = if is_exec_line(line) {
            exec_token(line.skip(5))
        } else {
            None
        };
        if here is Some {
            here
        } else if nl >= s.len() {
            None
        } else {
            exec_of_content(s.skip(nl + 1))
        }
    }
}

#[via_fn]
proof fn exec_of_content_decreases(s: Seq<char>) {
    lemma_first_nl(s);
}

fn find_nl(cs: &Vec<char>, from: usize) -> (j: usize)
    requires
        from <= cs@.len(),
    ensures
        from <= j <= cs@.len(),
        j - from == first_nl(cs@.skip(from as int)),
    decreases cs@.len() - from,
{
    if from == cs.len() {
        proof {
            assert(cs@.skip(from as int) =~= Seq::<char>::empty());
        }
        return from;
    }
    proof {
        assert(cs@.skip(from as int)[0] == cs@[from as int]);
        assert(cs@.skip(from as int).skip(1) =~= cs@.skip(from + 1 as int));
    }
    if cs[from] == '\n' {
        return from;
    }
    find_nl(cs, from + 1)
}

fn find_non_ws(cs: &Vec<char>, from: usize, to: usize) -> (j: usize)
    requires
        from <= to <= cs@.len(),
    ensures
        from <= j <= to,
        j - from == first_non_ws(cs@.subrange(from as int, to as int)),
    decreases to - from,
{
    if from == to {
        return from;
    }
    proof {
        assert(cs@.subrange(from as int, to as int)[0] == cs@[from as int]);
        assert(cs@.subrange(from as int, to as int).skip(1) =~= cs@.subrange(
            from + 1 as int,
            to as int,
        ));
    }
    let c = cs[from];
    if !(c == ' ' || c == '\t' || c == '\n' || c == '\r') {
        return from;
    }
    find_non_ws(cs, from + 1, to)
}

fn find_ws(cs: &Vec<char>, from: usize, to: usize) -> (j: usize)
    requires
        from <= to <= cs@.len(),
    ensures
        from <= j <= to,
        j - from == first_ws(cs@.subrange(from as int, to as int)),
    decreases to - from,
{
    if from == to {
        return from;
    }
    proof {
        assert(cs@.subrange(from as int, to as int)[0] == cs@[from as int]);
        assert(cs@.subrange(from as int, to as int).skip(1) =~= cs@.subrange(
            from + 1 as int,
            to as int,
        ));
    }
    let c = cs[from];
    if c == ' ' || c == '\t' || c == '\n' || c == '\r' {
        return from;
    }
    find_ws(cs, from + 1, to)
}

fn find_pct(cs: &Vec<char>, from: usize, to: usize) -> (j: usize)
    requires
        from <= to <= cs@.len(),
    ensures
        from <= j <= to,
        j - from == first_pct(cs@.subrange(from as int, to as int)),
    decreases to - from,
{
    if from == to {
        return from;
    }
    proof {
        assert(cs@.subrange(from as int, to as int)[0] == cs@[from as int]);
        assert(cs@.subrange(from as int, to as int).skip(1) =~= cs@.subrange(
            from + 1 as int,
            to as int,
        ));
    }
    if cs[from] == '%' {
        return from;
    }
    find_pct(cs, from + 1, to)
}

fn scan_content(cs: &Vec<char>, pos: usize) -> (r: Option<String>)
    requires
        pos <= cs@.len(),
    ensures
        match r {
            Some(t) => exec_of_content(cs@.skip(pos as int)) == Some(t@),
            None => exec_of_content(cs@.skip(pos as int)) is None,
        },
    decreases cs@.len() - pos,
{
    if pos == cs.len() {
        proof {
            assert(cs@.skip(pos as int) =~= Seq::<char>::empty());
        }
        return None;
    }
    let nl_abs = find_nl(cs, pos);
    let ghost s = cs@.skip(pos as int);
    let ghost nl = first_nl(s);
    let ghost line = s.subrange(0, nl);
    proof {
        lemma_first_nl(s);
        assert(line =~= cs@.subrange(pos as int, nl_abs as int));
        assert(line.len() == nl_abs - pos);
    }
    let long_enough = nl_abs - pos >= 5;
    let mut is_exec = false;
    if long_enough {
        let c0 = cs[pos] == 'E';
        let c1 = cs[pos + 1] == 'x';
        let c2 = cs[pos + 2] == 'e';
        let c3 = cs[pos + 3] == 'c';
        let c4 = cs[pos + 4] == '=';
        is_exec = c0 && c1 && c2 && c3 && c4;
        proof {
            reveal_strlit("Exec=");
            let pre = line.subrange(0, 5);
            assert(pre[0] == cs@[pos as int]);
            assert(pre[1] == cs@[pos + 1 as int]);
            assert(pre[2] == cs@[pos + 2 as int]);
            assert(pre[3] == cs@[pos + 3 as int]);
            assert(pre[4] == cs@[pos + 4 as int]);
            if c0 && c1 && c2 && c3 && c4 {
                assert(pre =~= "Exec="@);
            } else {
                assert(pre != "Exec="@);
            }
        }
    }
    proof {
        assert(is_exec == is_exec_line(line));
    }
    if is_exec {
        let ghost rest = line.skip(5);
        proof {
            assert(rest =~= cs@.subrange(pos + 5 as int, nl_abs as int));
        }
        let a = find_non_ws(cs, pos + 5, nl_abs);
        if a < nl_abs {
            let b = find_ws(cs, a, nl_abs);
            proof {
                assert(rest.skip(a - (pos + 5) as int) =~= cs@.subrange(a as int, nl_abs as int));
                assert(rest.subrange(a - (pos + 5) as int, a - (pos + 5) + first_ws(
                    rest.skip(a - (pos + 5) as int),
                )) =~= cs@.subrange(a as int, b as int));
            }
            let p = find_pct(cs, a, b);
            let ghost tok = cs@.subrange(a as int, b as int);
            proof {
                assert(tok.subrange(0, first_pct(tok)) =~= cs@.subrange(a as int, p as int));
            }
            let mut out: Vec<char> = Vec::new();
            let mut i: usize = a;
            while i < p
                invariant
                    a <= i <= p,
                    p <= cs@.len(),
                    out@ == cs@.subrange(a as int, i as int),
                decreases p - i,
            {
                out.push(cs[i]);
                proof {
                    assert(out@ =~= cs@.subrange(a as int, i + 1 as int));
                }
                i = i + 1;
            }
            proof {
                assert(exec_token(rest) == Some(cs@.subrange(a as int, p as int)));
                assert(exec_of_content(s) == Some(cs@.subrange(a as int, p as int)));
            }
            return Some(chars_to_string(&out));
        }
        proof {
            assert(first_non_ws(rest) == a - (pos + 5));
            assert(exec_token(rest) is None);
        }
    }
    if nl_abs == cs.len() {
        proof {
            assert(nl >= s.len());
        }
        return None;
    }
    proof {
        assert(s.skip(nl + 1) =~= cs@.skip(nl_abs + 1 as int));
    }
    scan_content(cs, nl_abs + 1)
}

/// The executable a launcher file's content names: the first
/// whitespace-delimited token after `Exec=` on the first such line that
/// has one, truncated at the first `%` placeholder; nothing when no line
/// yields one.
pub fn get_exec_from_desktop(content: &str) -> (r: Option<String>)
    ensures
        match r {
            Some(t) => exec_of_content(content@) == Some(t@),
            None => exec_of_content(content@) is None,
        },
{
    let cs = str_chars(content);
    proof {
        assert(cs@.skip(0) =~= content@);
    }
    scan_content(&cs, 0)
}

/// One step of the browser cascade: read a launcher file for its
/// `Exec=` executable, or take a binary of the default browser's name
/// from a fixed directory.
#[derive(Debug)]
pub enum BrowserProbe {
    DesktopFile(String),
    Binary(String),
}

/// The fixed probe cascade for the default browser's launcher name:
/// the system-wide application directory and the autostart directory,
/// each parsed for their `Exec=` executable, then three binary
/// directories; after the last probe, resolution has failed.
pub fn browser_probe(default_browser: &str, i: usize) -> (r: Option<BrowserProbe>)
    ensures
        i == 0 ==> (r matches Some(p) && p matches BrowserProbe::DesktopFile(q) && q@
            == "/usr/share/applications/"@ + default_browser@),
        i == 1 ==> (r matches Some(p) && p matches BrowserProbe::DesktopFile(q) && q@
            == "/etc/xdg/autostart/"@ + default_browser@),
        i == 2 ==> (r matches Some(p) && p matches BrowserProbe::Binary(q) && q@ == "/usr/bin/"@
            + default_browser@),
        i == 3 ==> (r matches Some(p) && p matches BrowserProbe::Binary(q) && q@
            == "/usr/local/bin/"@ + default_browser@),
        i == 4 ==> (r matches Some(p) && p matches BrowserProbe::Binary(q) && q@ == "/snap/bin/"@
            + default_browser@),
        i >= 5 ==> r is None,
{
    if i == 0 {
        Some(BrowserProbe::DesktopFile("/usr/share/applications/".to_owned().concat(
            default_browser,
        )))
    } else if i == 1 {
        Some(BrowserProbe::DesktopFile("/etc/xdg/autostart/".to_owned().concat(default_browser)))
    } else if i == 2 {
        Some(BrowserProbe::Binary("/usr/bin/".to_owned().concat(default_browser)))
    } else if i == 3 {
        Some(BrowserProbe::Binary("/usr/local/bin/".to_owned().concat(default_browser)))
    } else if i == 4 {
        Some(BrowserProbe::Binary("/snap/bin/".to_owned().concat(default_browser)))
    } else {
        None
    }
}

} // verus!
