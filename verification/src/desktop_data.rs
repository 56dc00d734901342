//! The desktop-entry synchronizer: one launcher file per app, derived
//! deterministically from the app's record.  The functions here compute
//! the file's name and exact content; the caller writes and deletes the
//! files.

use vstd::prelude::*;
use vstd::string::StringExecFns;
use crate::domain::{App, AppView};
use crate::text::{chars_to_string, lower_of, lowercase, push_chars, str_chars};

verus! {

/// How a launcher-file operation of the caller fails: only the file
/// system can refuse one.
#[derive(Debug)]
pub enum DesktopDataError {
    Io(String),
}

/// The text with every space replaced by an underscore.
pub open spec fn underscored(s: Seq<char>) -> Seq<char> {
    s.map_values(|c: char| if c == ' ' { '_' } else { c })
}

/// The launcher file's name, derived from the app's name: lowercased,
/// spaces replaced by underscores, with the `.desktop` suffix.
pub open spec fn entry_file_name(name: Seq<char>) -> Seq<char> {
    underscored(lower_of(name)) + ".desktop"@
}

/// The exact content of an app's launcher file: the entry header, the
/// app's name, a command that re-invokes the launcher with the app's name
/// as argument, the application type, and, when the app has an icon, an
/// icon line.
pub open spec fn entry_content(a: AppView) -> Seq<char> {
    "[Desktop Entry]\nName="@ + a.name + "\nExec=tarantula "@ + a.name + "\nType=Application\n"@
        + match a.icon {
        Some(i) => "Icon="@ + i + "\n"@,
        None => Seq::empty(),
    }
}

/// A launcher file to write: its name inside the desktop-entry directory
/// and its full content.
#[derive(Debug)]
pub struct DesktopFile {
    pub file_name: String,
    pub content: String,
}

/// The text with every space replaced by an underscore.
pub fn underscore(s: &str) -> (r: String)
    ensures
        r@ == underscored(s@),
{
    let cs = str_chars(s);
    let n = cs.len();
    let mut out: Vec<char> = Vec::new();
    let mut i: usize = 0;
    while i < n
        invariant
            i <= n,
            n == cs@.len(),
            cs@ == s@,
            out@.len() == i,
            forall|j: int| 0 <= j < i ==> out@[j] == (if s@[j] == ' ' {
                '_'
            } else {
                s@[j]
            }),
        decreases n - i,
    {
        let c = cs[i];
        if c == ' ' {
            out.push('_');
        } else {
            out.push(c);
        }
        i = i + 1;
    }
    proof {
        assert(out@ =~= underscored(s@));
    }
    chars_to_string(&out)
}

/// The name of the launcher file derived from an app name.
pub fn derived_file_name(app_name: &str) -> (r: String)
    ensures
        r@ == entry_file_name(app_name@),
{
    let low = lowercase(app_name);
    let und = underscore(low.as_str());
    und.concat(".desktop")
}

/// The launcher file for an app: always regenerated whole from the app's
/// current record.
pub fn create_entry(app: &App) -> (r: DesktopFile)
    ensures
        r.file_name@ == entry_file_name(app@.name),
        r.content@ == entry_content(app@),
{
    let file_name = derived_file_name(app.name.as_str());
    let mut out: Vec<char> = Vec::new();
    push_chars(&mut out, "[Desktop Entry]\nName=");
    push_chars(&mut out, app.name.as_str());
    push_chars(&mut out, "\nExec=tarantula ");
    push_chars(&mut out, app.name.as_str());
    push_chars(&mut out, "\nType=Application\n");
    match &app.icon {
        Some(icon) => {
            push_chars(&mut out, "Icon=");
            push_chars(&mut out, icon.as_str());
            push_chars(&mut out, "\n");
        },
        None => {},
    }
    proof {
        assert(out@ =~= entry_content(app@));
    }
    let content = chars_to_string(&out);
    DesktopFile { file_name, content }
}

/// Regenerating an entry is the same as creating it: the file is always
/// rebuilt whole from the current record.
pub fn update_entry(app: &App) -> (r: DesktopFile)
    ensures
        r.file_name@ == entry_file_name(app@.name),
        r.content@ == entry_content(app@),
{
    create_entry(app)
}

/// The name of the launcher file to delete when the app of the given
/// name is removed.
pub fn remove_entry(app_name: &str) -> (r: String)
    ensures
        r@ == entry_file_name(app_name@),
{
    derived_file_name(app_name)
}

} // verus!
