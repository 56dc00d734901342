//! Running an app: decide which URL to open and with which browser.
//! When no browser is configured the caller resolves one through the
//! probes in `browser` and builds the launch plan itself; launching is
//! the caller's.

use vstd::prelude::*;
use vstd::string::StringExecFns;
use crate::app_data::{doc_view, get_app, lemma_first_lower_match};
use crate::domain::{first_lower_match, has_lower_name, Config};
use crate::jsonspec::parsed_registry;
use crate::text::{is_url, is_url_spec, lower_of};

verus! {

/// How running an app fails: the name is neither installed nor itself a
/// URL, the registry document does not parse, no default browser could
/// be determined, or the launch itself failed.
#[derive(Debug)]
pub enum RunError {
    NotFound(String),
    MalformedData,
    BrowserUnresolved,
    LaunchFailed(String),
}

/// The command a launch runs: the browser executable and its single
/// app-mode argument.
#[derive(Debug)]
pub struct LaunchPlan {
    pub program: String,
    pub arg: String,
}

/// What the caller must do next: launch right away with the configured
/// browser, or first resolve a default browser for the given URL.
#[derive(Debug)]
pub enum RunDecision {
    Launch(LaunchPlan),
    ResolveBrowser(String),
}

/// The argument that opens a URL in a dedicated app-mode window.
pub fn launch_plan(browser: &str, url: &str) -> (p: LaunchPlan)
    ensures
        p.program@ == browser@,
        p.arg@ == "--app="@ + url@,
{
    LaunchPlan { program: browser.to_owned(), arg: "--app=".to_owned().concat(url) }
}

/// Decides how to run the given name: an installed app's URL is opened,
/// a name that is itself a URL is opened directly, and anything else is
/// not found.  With a configured browser the launch plan is complete;
/// without one the caller must resolve a browser first.
pub fn run(app_name: &str, contents: Option<&String>, config: &Config) -> (r: Result<
    RunDecision,
    RunError,
>)
    ensures
        parsed_registry(doc_view(contents)) is None ==> (r matches Err(e) && e is MalformedData),
        parsed_registry(doc_view(contents)) matches Some(apps) ==> {
            let lname = lower_of(app_name@);
            let present = has_lower_name(apps, lname);
            let url = if present {
                apps[first_lower_match(apps, lname)].url
            } else {
                app_name@
            };
            match r {
                Ok(d) => {
                    &&& (present || is_url_spec(app_name@))
                    &&& (match d {
                        RunDecision::Launch(p) => {
                            &&& config@.browser_path matches Some(b)
                            &&& p.program@ == b
                            &&& p.arg@ == "--app="@ + url
                        },
                        RunDecision::ResolveBrowser(u) => config@.browser_path is None && u@
                            == url,
                    })
                },
                Err(RunError::NotFound(n)) => !present && !is_url_spec(app_name@) && n@ == app_name@,
                Err(_) => false,
            }
        },
{
    let found = match get_app(app_name, contents) {
        Ok(o) => o,
        Err(_) => {
            return Err(RunError::MalformedData);
        },
    };
    proof {
        match parsed_registry(doc_view(contents)) {
            Some(apps) => lemma_first_lower_match(apps, lower_of(app_name@)),
            None => {},
        }
    }
    let url = match found {
        Some(a) => a.url,
        None => {
            if is_url(app_name) {
                app_name.to_owned()
            } else {
                return Err(RunError::NotFound(app_name.to_owned()));
            }
        },
    };
    match &config.browser_path {
        Some(b) => Ok(RunDecision::Launch(launch_plan(b.as_str(), url.as_str()))),
        None => Ok(RunDecision::ResolveBrowser(url)),
    }
}

} // verus!
