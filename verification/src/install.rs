//! Installing an app: validate the name, append the entry to the
//! registry, and derive the launcher file — all computed here; the
//! caller fetches the icon beforehand and writes the documents after.

use vstd::prelude::*;
use vstd::string::StringExecFns;
use crate::app_data::{add_app, doc_view, ProjectDataError};
use crate::desktop_data::{create_entry, entry_content, entry_file_name, DesktopFile};
use crate::domain::{has_lower_name, is_reserved, App, AppView};
use crate::jsonspec::{parsed_registry, registry_json};
use crate::jsonread::optstr_view;
use crate::text::{lower_of, lowercase, str_eq};

verus! {

/// How an installation fails: the name is reserved or already taken, or
/// the registry document on disk does not parse.
#[derive(Debug)]
pub enum InstallError {
    InvalidInput(String),
    MalformedData,
}

/// What a successful installation asks the caller to write: the new
/// registry document and the app's launcher file.
#[derive(Debug)]
pub struct InstallOutcome {
    pub registry_doc: String,
    pub entry: DesktopFile,
}

/// True when the name is one of the reserved command keywords, compared
/// case-insensitively.
pub fn is_reserved_name(name: &str) -> (r: bool)
    ensures
        r == is_reserved(lower_of(name@)),
{
    let low = lowercase(name);
    str_eq(low.as_str(), "install") || str_eq(low.as_str(), "uninstall") || str_eq(
        low.as_str(),
        "update",
    ) || str_eq(low.as_str(), "list")
}

/// Installs an app under the given name and URL, with the icon path the
/// caller's fetch produced, if any.  A reserved name is rejected first;
/// a name already present, compared case-insensitively, is rejected
/// before anything changes; otherwise the entry is appended and its
/// launcher file derived.
pub fn install(name: &str, url: &str, icon: Option<String>, contents: Option<&String>) -> (r:
    Result<InstallOutcome, InstallError>)
    ensures
        is_reserved(lower_of(name@)) ==> (r matches Err(e) && e matches InstallError::InvalidInput(
            _,
        )),
        !is_reserved(lower_of(name@)) && parsed_registry(doc_view(contents)) is None ==> (r
            matches Err(e) && e is MalformedData),
        !is_reserved(lower_of(name@)) ==> (parsed_registry(doc_view(contents)) matches Some(apps)
            ==> {
            let a = AppView { name: name@, url: url@, icon: optstr_view(icon) };
            match r {
                Ok(o) => {
                    &&& !has_lower_name(apps, lower_of(name@))
                    &&& o.registry_doc@ == registry_json(apps.push(a))
                    &&& o.entry.file_name@ == entry_file_name(name@)
                    &&& o.entry.content@ == entry_content(a)
                },
                Err(e) => e matches InstallError::InvalidInput(_) && has_lower_name(
                    apps,
                    lower_of(name@),
                ),
            }
        }),
{
    if is_reserved_name(name) {
        return Err(
            InstallError::InvalidInput(
                "App name cannot be a reserved word (install, uninstall, update, list)".to_owned(),
            ),
        );
    }
    let app = App { name: name.to_owned(), url: url.to_owned(), icon };
    let registry_doc = match add_app(app.clone(), contents) {
        Ok(doc) => doc,
        Err(ProjectDataError::MalformedData) => {
            return Err(InstallError::MalformedData);
        },
        Err(_) => {
            return Err(InstallError::InvalidInput("An app of that name is already installed".to_owned()));
        },
    };
    let entry = create_entry(&app);
    Ok(InstallOutcome { registry_doc, entry })
}

} // verus!
