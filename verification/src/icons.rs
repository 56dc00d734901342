//! The icon fetcher's plan: the fixed ordered list of well-known icon
//! locations on an app's host, the local cache path the fetched bytes go
//! to, and the rule that the first successful probe wins.  The caller
//! performs the network fetches and the file write.

use vstd::prelude::*;
use vstd::string::StringExecFns;
use crate::domain::{App, Config};
use crate::desktop_data::{underscore, underscored};
use crate::text::{lower_of, lowercase};

verus! {

/// The host of a web URL, as the URL parser finds it; nothing when the
/// text is no absolute URL or it has no host.
pub uninterp spec fn host_of(s: Seq<char>) -> Option<Seq<char>>;

/// Relies on `url::Url::parse` and `url::Url::host_str`: the host of a
/// URL is a function of the text alone, and absent exactly when the text
/// does not parse as an absolute URL with a host.
#[verifier::external_body]
fn url_host(s: &str) -> (r: Option<String>)
    ensures
        match r {
            Some(h) => host_of(s@) == Some(h@),
            None => host_of(s@) is None,
        },
{
    match url::Url::parse(s) {
        Ok(u) => match u.host_str() {
            Some(h) => Some(h.to_owned()),
            None => None,
        },
        Err(_) => None,
    }
}

/// The candidate icon locations, probed in this order.
pub open spec fn icon_candidate(host: Seq<char>, i: int) -> Seq<char> {
    "https://"@ + host + if i == 0 {
        "/favicon.ico"@
    } else if i == 1 {
        "/assets/favicon.ico"@
    } else if i == 2 {
        "/assets/favicon.png"@
    } else if i == 3 {
        "/images/favicon.ico"@
    } else {
        "/images/favicon.png"@
    }
}

/// Where fetched icon bytes are cached: in the data directory, under the
/// lowercased, underscored app name with the `.ico` suffix.
pub open spec fn icon_cache_path(name: Seq<char>, dir: Seq<char>) -> Seq<char> {
    dir + "/"@ + underscored(lower_of(name)) + ".ico"@
}

/// The fetch plan for one app: the five candidate URLs in probe order and
/// the local path the first successful response's bytes are saved to.
#[derive(Debug)]
pub struct IconPlan {
    pub urls: Vec<String>,
    pub save_path: String,
}

fn icon_url(host: &str, suffix: &str) -> (r: String)
    ensures
        r@ == "https://"@ + host@ + suffix@,
{
    let r = "https://".to_owned().concat(host).concat(suffix);
    proof {
        assert(r@ =~= "https://"@ + host@ + suffix@);
    }
    r
}

/// The fetch plan for an app, or nothing when the app's URL has no host,
/// in which case no icon is fetched and the app keeps none.
pub fn store_icon(app: &App, config: &Config) -> (r: Option<IconPlan>)
    ensures
        match r {
            Some(p) => {
                &&& host_of(app@.url) matches Some(h) && p.urls@.len() == 5 && (forall|i: int|
                    0 <= i < 5 ==> (#[trigger] p.urls@[i])@ == icon_candidate(h, i))
                &&& p.save_path@ == icon_cache_path(app@.name, config@.app_data_path)
            },
            None => host_of(app@.url) is None,
        },
{
    let host = match url_host(app.url.as_str()) {
        Some(h) => h,
        None => {
            return None;
        },
    };
    let mut urls: Vec<String> = Vec::new();
    urls.push(icon_url(host.as_str(), "/favicon.ico"));
    urls.push(icon_url(host.as_str(), "/assets/favicon.ico"));
    urls.push(icon_url(host.as_str(), "/assets/favicon.png"));
    urls.push(icon_url(host.as_str(), "/images/favicon.ico"));
    urls.push(icon_url(host.as_str(), "/images/favicon.png"));
    let low = lowercase(app.name.as_str());
    let und = underscore(low.as_str());
    let save_path = config.app_data_path.clone().concat("/").concat(und.as_str()).concat(".ico");
    proof {
        assert(save_path@ =~= icon_cache_path(app@.name, config@.app_data_path));
    }
    Some(IconPlan { urls, save_path })
}

/// Which probe's bytes are kept: the first successful one; none when
/// every probe failed.
pub fn icon_probe_choice(outcomes: &Vec<bool>) -> (r: Option<usize>)
    ensures
        match r {
            Some(i) => i < outcomes@.len() && outcomes@[i as int] && (forall|j: int|
                0 <= j < i ==> !outcomes@[j]),
            None => forall|j: int| 0 <= j < outcomes@.len() ==> !outcomes@[j],
        },
{
    let n = outcomes.len();
    let mut i: usize = 0;
    while i < n
        invariant
            i <= n,
            n == outcomes@.len(),
            forall|j: int| 0 <= j < i ==> !outcomes@[j],
        decreases n - i,
    {
        if outcomes[i] {
            return Some(i);
        }
        i = i + 1;
    }
    None
}

} // verus!
