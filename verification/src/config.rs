//! Persistence of the user-level configuration: the browser setting is
//! written into the configuration document, and read back out of it.
//! The caller checks that a configured path exists on disk and reads and
//! writes the document.

use vstd::prelude::*;
use crate::app_data::set_browser_path;
use crate::domain::Config;
use crate::jsonread::{optstr_view, read_config};
use crate::jsonspec::{config_json, sp_config};

verus! {

/// How a configuration change fails: the new browser path does not name
/// an existing file, or the configuration document does not parse.
#[derive(Debug)]
pub enum ConfigError {
    InvalidPath(String),
    MalformedData,
}

/// How the caller's configuration file access fails: only the file
/// system can refuse one.
#[derive(Debug)]
pub enum ConfigDataError {
    Io(String),
}

/// Sets the configured browser, after the caller checked that the path
/// exists, and returns the configuration document to write back.  A path
/// that does not exist is rejected before anything changes.
pub fn update_browser_path(new_path: &str, path_exists: bool, config: &mut Config) -> (r: Result<
    String,
    ConfigError,
>)
    ensures
        !path_exists ==> (r matches Err(e) && e matches ConfigError::InvalidPath(_)
            && *final(config) == *old(config)),
        path_exists ==> (r matches Ok(doc)
            && final(config)@.app_data_path == old(config)@.app_data_path
            && final(config)@.desktop_data_path == old(config)@.desktop_data_path
            && final(config)@.browser_path == Some(new_path@)
            && doc@ == config_json(final(config)@)),
{
    if !path_exists {
        return Err(ConfigError::InvalidPath("Executable path does not exist".to_owned()));
    }
    let (new_config, doc) = set_browser_path(new_path, config);
    *config = new_config;
    Ok(doc)
}

/// The browser the configuration document holds; a missing document
/// holds none.
pub fn get_browser_path(contents: Option<&String>) -> (r: Result<Option<String>, ConfigError>)
    ensures
        contents is None ==> r == Ok::<Option<String>, ConfigError>(None),
        contents matches Some(s) ==> match r {
            Ok(o) => sp_config(s@) matches Some(cv) && cv.browser_path == optstr_view(o),
            Err(e) => e matches ConfigError::MalformedData && sp_config(s@) is None,
        },
{
    match contents {
        None => Ok(None),
        Some(s) => match read_config(s.as_str()) {
            Some(c) => Ok(c.browser_path),
            None => Err(ConfigError::MalformedData),
        },
    }
}

/// The document the caller creates when the configuration file is
/// missing: empty paths and no browser configured.
pub fn default_config_contents() -> (r: String)
    ensures
        r@ == "{\"app_data_path\":\"\",\"desktop_data_path\":\"\",\"browser_path\":null}"@,
{
    "{\"app_data_path\":\"\",\"desktop_data_path\":\"\",\"browser_path\":null}".to_owned()
}

} // verus!
