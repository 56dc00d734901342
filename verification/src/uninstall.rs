//! Uninstalling an app: remove its registry entry and name the launcher
//! file to delete; the caller writes the document and removes the file.

use vstd::prelude::*;
use crate::app_data::{
    doc_view, get_app, lemma_first_lower_match, remove_app, remove_matches,
};
use crate::desktop_data::{entry_file_name, remove_entry};
use crate::domain::{first_lower_match, has_lower_name};
use crate::jsonspec::{parsed_registry, registry_json};
use crate::text::lower_of;

verus! {

/// How an uninstallation fails: no app of that name is installed, or the
/// registry document on disk does not parse.
#[derive(Debug, PartialEq, Eq, Structural, Clone, Copy)]
pub enum UninstallError {
    NotFound,
    MalformedData,
}

/// What a successful uninstallation asks the caller to do: write the new
/// registry document and delete the named launcher file.
#[derive(Debug)]
pub struct UninstallOutcome {
    pub registry_doc: String,
    pub remove_file: String,
}

/// Uninstalls the app of the given name, compared case-insensitively:
/// exactly its registry entries are removed and exactly its derived
/// launcher file is named for deletion.  An absent name changes nothing
/// and is reported as not found.
pub fn uninstall(app_name: &str, contents: Option<&String>) -> (r: Result<
    UninstallOutcome,
    UninstallError,
>)
    ensures
        parsed_registry(doc_view(contents)) is None ==> r == Err::<
            UninstallOutcome,
            UninstallError,
        >(UninstallError::MalformedData),
        parsed_registry(doc_view(contents)) matches Some(apps) ==> match r {
            Ok(o) => {
                &&& has_lower_name(apps, lower_of(app_name@))
                &&& o.registry_doc@ == registry_json(remove_matches(apps, lower_of(app_name@)))
                &&& o.remove_file@ == entry_file_name(
                    apps[first_lower_match(apps, lower_of(app_name@))].name,
                )
            },
            Err(e) => e == UninstallError::NotFound && !has_lower_name(
                apps,
                lower_of(app_name@),
            ),
        },
{
    let found = match get_app(app_name, contents) {
        Ok(o) => o,
        Err(_) => {
            return Err(UninstallError::MalformedData);
        },
    };
    proof {
        match parsed_registry(doc_view(contents)) {
            Some(apps) => lemma_first_lower_match(apps, lower_of(app_name@)),
            None => {},
        }
    }
    let app = match found {
        Some(a) => a,
        None => {
            return Err(UninstallError::NotFound);
        },
    };
    let registry_doc = match remove_app(app_name, contents) {
        Ok(doc) => doc,
        Err(_) => {
            proof {
                assert(false);
            }
            return Err(UninstallError::MalformedData);
        },
    };
    let remove_file = remove_entry(app.name.as_str());
    Ok(UninstallOutcome { registry_doc, remove_file })
}

} // verus!
