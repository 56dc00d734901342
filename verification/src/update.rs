//! Updating an app: merge only the supplied fields into the existing
//! entry, rewrite the registry, regenerate the launcher file, and — when
//! the derived file name changed — name the old launcher file for
//! deletion, so that a rename never orphans a file.

use vstd::prelude::*;
use crate::app_data::{
    doc_view, get_app, lemma_first_lower_match, replace_matches, update_app,
};
use crate::desktop_data::{
    entry_content, entry_file_name, remove_entry, update_entry, DesktopFile,
};
use crate::domain::{first_lower_match, has_lower_name, App, AppView};
use crate::jsonspec::{parsed_registry, registry_json};
use crate::text::{lower_of, lowercase, str_eq};

verus! {

/// The fields an update supplies: only these change; a field left out
/// keeps its current value.
#[derive(Debug)]
pub struct UpdateOptions {
    pub name: Option<String>,
    pub url: Option<String>,
}

/// The value of an [`UpdateOptions`], at the specification level.
pub ghost struct UpdateOptionsView {
    pub name: Option<Seq<char>>,
    pub url: Option<Seq<char>>,
}

impl View for UpdateOptions {
    type V = UpdateOptionsView;

    open spec fn view(&self) -> UpdateOptionsView {
        UpdateOptionsView {
            name: match self.name {
                Some(s) => Some(s@),
                None => None,
            },
            url: match self.url {
                Some(s) => Some(s@),
                None => None,
            },
        }
    }
}

/// The entry with the supplied fields merged in: the icon is never
/// touched by an update.
pub open spec fn merged(a: AppView, options: UpdateOptionsView) -> AppView {
    AppView {
        name: match options.name {
            Some(n) => n,
            None => a.name,
        },
        url: match options.url {
            Some(u) => u,
            None => a.url,
        },
        icon: a.icon,
    }
}

/// How an update fails: no app of that name is installed, the new name
/// collides with another installed app, or the registry document on
/// disk does not parse.
#[derive(Debug)]
pub enum UpdateError {
    NotFound,
    InvalidInput(String),
    MalformedData,
}

/// What a successful update asks the caller to do: write the new
/// registry document, write the regenerated launcher file, and — after a
/// rename that changed the derived file name — delete the old one.
#[derive(Debug)]
pub struct UpdateOutcome {
    pub registry_doc: String,
    pub entry: DesktopFile,
    pub old_entry: Option<String>,
}

/// Updates the app of the given name, compared case-insensitively,
/// merging only the supplied fields.  An absent name is reported as not
/// found; a rename onto another installed app's name is rejected before
/// anything changes.
pub fn update(name: &str, options: &UpdateOptions, contents: Option<&String>) -> (r: Result<
    UpdateOutcome,
    UpdateError,
>)
    ensures
        parsed_registry(doc_view(contents)) is None ==> (r matches Err(e) && e is MalformedData),
        parsed_registry(doc_view(contents)) matches Some(apps) ==> {
            let lname = lower_of(name@);
            let k = first_lower_match(apps, lname);
            let m = merged(apps[k], options@);
            match r {
                Ok(o) => {
                    &&& has_lower_name(apps, lname)
                    &&& o.registry_doc@ == registry_json(replace_matches(apps, lname, m))
                    &&& o.entry.file_name@ == entry_file_name(m.name)
                    &&& o.entry.content@ == entry_content(m)
                    &&& (match o.old_entry {
                        Some(f) => f@ == entry_file_name(apps[k].name) && entry_file_name(
                            apps[k].name,
                        ) != entry_file_name(m.name),
                        None => entry_file_name(apps[k].name) == entry_file_name(m.name),
                    })
                },
                Err(UpdateError::NotFound) => !has_lower_name(apps, lname),
                Err(UpdateError::InvalidInput(_)) => {
                    &&& has_lower_name(apps, lname)
                    &&& options@.name matches Some(n) && lower_of(n) != lname && has_lower_name(
                        apps,
                        lower_of(n),
                    )
                },
                Err(UpdateError::MalformedData) => false,
            }
        },
{
    let found = match get_app(name, contents) {
        Ok(o) => o,
        Err(_) => {
            return Err(UpdateError::MalformedData);
        },
    };
    proof {
        match parsed_registry(doc_view(contents)) {
            Some(apps) => lemma_first_lower_match(apps, lower_of(name@)),
            None => {},
        }
    }
    let app = match found {
        Some(a) => a,
        None => {
            return Err(UpdateError::NotFound);
        },
    };
    let new_name = match &options.name {
        Some(n) => n.clone(),
        None => app.name.clone(),
    };
    let new_url = match &options.url {
        Some(u) => u.clone(),
        None => app.url.clone(),
    };
    // a rename onto another installed name, compared case-insensitively,
    // would leave two colliding entries: reject it before any change
    if options.name.is_some() {
        let lname = lowercase(name);
        let lnew = lowercase(new_name.as_str());
        if !str_eq(lnew.as_str(), lname.as_str()) {
            let other = get_app(new_name.as_str(), contents);
            proof {
                match parsed_registry(doc_view(contents)) {
                    Some(apps) => lemma_first_lower_match(apps, lower_of(new_name@)),
                    None => {},
                }
            }
            match other {
                Ok(Some(_)) => {
                    return Err(
                        UpdateError::InvalidInput(
                            "An app of that name is already installed".to_owned(),
                        ),
                    );
                },
                Ok(None) => {},
                Err(_) => {
                    return Err(UpdateError::MalformedData);
                },
            }
        }
    }
    let new_icon = match &app.icon {
        Some(s) => Some(s.clone()),
        None => None,
    };
    let new_app = App { name: new_name, url: new_url, icon: new_icon };
    let registry_doc = match update_app(name, &new_app, contents) {
        Ok(doc) => doc,
        Err(_) => {
            proof {
                assert(false);
            }
            return Err(UpdateError::MalformedData);
        },
    };
    let entry = update_entry(&new_app);
    let old_file = remove_entry(app.name.as_str());
    let old_entry: Option<String> = if !old_file.eq(&entry.file_name) {
        Some(old_file)
    } else {
        None
    };
    Ok(UpdateOutcome { registry_doc, entry, old_entry })
}

} // verus!
