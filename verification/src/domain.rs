//! The data the registry owns: an installed application, the configuration
//! that locates the on-disk store, and their specification-level views.

use vstd::prelude::*;
use crate::text::lower_of;

verus! {

/// One installed web application: a unique name, the URL it opens, and an
/// optional path to a locally cached icon.
#[derive(Debug)]
pub struct App {
    pub name: String,
    pub url: String,
    pub icon: Option<String>,
}

impl Clone for App {
    /// A clone holds the same name, URL and icon.
    fn clone(&self) -> (r: Self)
        ensures
            r == *self,
    {
        App {
            name: self.name.clone(),
            url: self.url.clone(),
            icon: match &self.icon {
                Some(s) => Some(s.clone()),
                None => None,
            },
        }
    }
}

/// The value of an [`App`], at the specification level.
pub ghost struct AppView {
    pub name: Seq<char>,
    pub url: Seq<char>,
    pub icon: Option<Seq<char>>,
}

impl View for App {
    type V = AppView;

    open spec fn view(&self) -> AppView {
        AppView {
            name: self.name@,
            url: self.url@,
            icon: match self.icon {
                Some(s) => Some(s@),
                None => None,
            },
        }
    }
}

/// The values of a whole registry, in insertion order.
pub open spec fn reg_view(apps: Seq<App>) -> Seq<AppView> {
    apps.map_values(|a: App| a@)
}

/// Where the registry lives on disk: the data directory that holds the
/// registry and config documents and the cached icons, the directory that
/// holds the generated desktop-launcher files, and the browser executable
/// to launch apps with, once one is configured.
#[derive(Debug)]
pub struct Config {
    pub app_data_path: String,
    pub desktop_data_path: String,
    pub browser_path: Option<String>,
}

impl Clone for Config {
    /// A clone holds the same paths and browser setting.
    fn clone(&self) -> (r: Self)
        ensures
            r == *self,
    {
        Config {
            app_data_path: self.app_data_path.clone(),
            desktop_data_path: self.desktop_data_path.clone(),
            browser_path: match &self.browser_path {
                Some(s) => Some(s.clone()),
                None => None,
            },
        }
    }
}

/// The value of a [`Config`], at the specification level.
pub ghost struct ConfigView {
    pub app_data_path: Seq<char>,
    pub desktop_data_path: Seq<char>,
    pub browser_path: Option<Seq<char>>,
}

impl View for Config {
    type V = ConfigView;

    open spec fn view(&self) -> ConfigView {
        ConfigView {
            app_data_path: self.app_data_path@,
            desktop_data_path: self.desktop_data_path@,
            browser_path: match self.browser_path {
                Some(s) => Some(s@),
                None => None,
            },
        }
    }
}

impl Config {
    /// A fresh configuration with no browser configured yet.
    pub fn new(app_data_path: String, desktop_data_path: String) -> (r: Self)
        ensures
            r@.app_data_path == app_data_path@,
            r@.desktop_data_path == desktop_data_path@,
            r@.browser_path is None,
    {
        Config { app_data_path, desktop_data_path, browser_path: None }
    }
}

/// True when the lowercased name is one of the command keywords that an
/// app may not be called, so that a registered name never shadows a
/// command.
pub open spec fn is_reserved(lname: Seq<char>) -> bool {
    ||| lname == "install"@
    ||| lname == "uninstall"@
    ||| lname == "update"@
    ||| lname == "list"@
}

/// True when some entry's name equals `lname` under case-insensitive
/// comparison, `lname` being already lowercased.
pub open spec fn has_lower_name(apps: Seq<AppView>, lname: Seq<char>) -> bool {
    exists|i: int| 0 <= i < apps.len() && lower_of(apps[i].name) == lname
}

/// The first entry whose name matches `lname` case-insensitively.
pub open spec fn first_lower_match(apps: Seq<AppView>, lname: Seq<char>) -> int {
    first_lower_match_from(apps, lname, 0)
}

pub open spec fn first_lower_match_from(apps: Seq<AppView>, lname: Seq<char>, i: int) -> int
    decreases apps.len() - i,
{
    if i < 0 || i >= apps.len() {
        apps.len() as int
    } else if lower_of(apps[i].name) == lname {
        i
    } else {
        first_lower_match_from(apps, lname, i + 1)
    }
}

} // verus!
