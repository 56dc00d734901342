//! The registry store: every operation takes the current registry
//! document — `None` when the file does not exist yet — and returns what
//! must be written back.  Names match case-insensitively throughout, and
//! no successful mutation ever leaves two entries whose names collide
//! case-insensitively.

use vstd::prelude::*;
use crate::domain::{
    App, AppView, Config, first_lower_match, first_lower_match_from, has_lower_name, reg_view,
};
use crate::jsonspec::{parsed_registry, registry_json, config_json};
use crate::jsonread::read_registry;
use crate::jsonwrite::{write_config, write_registry};
use crate::text::{lower_of, lowercase};

verus! {

/// How a store operation fails: the document on disk does not parse, the
/// entry to change is absent, or the new entry's name collides with one
/// already present.
#[derive(Debug, PartialEq, Eq, Structural, Clone, Copy)]
pub enum ProjectDataError {
    MalformedData,
    NotFound,
    InvalidInput,
}

/// The text of an optional document.
pub open spec fn doc_view(contents: Option<&String>) -> Option<Seq<char>> {
    match contents {
        Some(s) => Some(s@),
        None => None,
    }
}

/// The registry without the entries whose name matches `lname`
/// case-insensitively.
pub open spec fn remove_matches(apps: Seq<AppView>, lname: Seq<char>) -> Seq<AppView>
    decreases apps.len(),
{
    if apps.len() == 0 {
        Seq::empty()
    } else if lower_of(apps[0].name) == lname {
        remove_matches(apps.skip(1), lname)
    } else {
        seq![apps[0]] + remove_matches(apps.skip(1), lname)
    }
}

/// The registry with every entry whose name matches `lname`
/// case-insensitively replaced by `b`.
pub open spec fn replace_matches(apps: Seq<AppView>, lname: Seq<char>, b: AppView) -> Seq<AppView>
    decreases apps.len(),
{
    if apps.len() == 0 {
        Seq::empty()
    } else if lower_of(apps[0].name) == lname {
        seq![b] + replace_matches(apps.skip(1), lname, b)
    } else {
        seq![apps[0]] + replace_matches(apps.skip(1), lname, b)
    }
}

/// The registry's invariant: no two entries share a name under
/// case-insensitive comparison.
pub open spec fn unique_names(apps: Seq<AppView>) -> bool {
    forall|i: int, j: int| 0 <= i < j < apps.len() ==> lower_of(#[trigger] apps[i].name)
        != lower_of(#[trigger] apps[j].name)
}

/// Appending an entry whose name is not yet present keeps names unique:
/// what a successful `add_app` does to the registry.
pub proof fn lemma_add_preserves_unique_names(apps: Seq<AppView>, a: AppView)
    requires
        unique_names(apps),
        !has_lower_name(apps, lower_of(a.name)),
    ensures
        unique_names(apps.push(a)),
{
    let pushed = apps.push(a);
    assert forall|i: int, j: int| 0 <= i < j < pushed.len() implies lower_of(
        #[trigger] pushed[i].name,
    ) != lower_of(#[trigger] pushed[j].name) by {
        if j < apps.len() {
            assert(pushed[i] == apps[i]);
            assert(pushed[j] == apps[j]);
        } else {
            assert(pushed[j] == a);
            assert(pushed[i] == apps[i]);
            assert(!(lower_of(apps[i].name) == lower_of(a.name)));
        }
    }
}

/// Every entry of the filtered registry is an entry of the registry.
proof fn lemma_remove_matches_members(apps: Seq<AppView>, lname: Seq<char>)
    ensures
        forall|k: int| 0 <= k < remove_matches(apps, lname).len() ==> exists|m: int|
            0 <= m < apps.len() && #[trigger] remove_matches(apps, lname)[k] == apps[m],
    decreases apps.len(),
{
    if apps.len() > 0 {
        lemma_remove_matches_members(apps.skip(1), lname);
        let removed = remove_matches(apps, lname);
        let tail = remove_matches(apps.skip(1), lname);
        assert forall|k: int| 0 <= k < removed.len() implies exists|m: int|
            0 <= m < apps.len() && #[trigger] removed[k] == apps[m] by {
            if lower_of(apps[0].name) == lname {
                let m0 = choose|m: int| 0 <= m < apps.skip(1).len() && tail[k] == apps.skip(1)[m];
                assert(removed[k] == apps[m0 + 1]);
            } else {
                if k == 0 {
                    assert(removed[0] == apps[0]);
                } else {
                    let m0 = choose|m: int|
                        0 <= m < apps.skip(1).len() && tail[k - 1] == apps.skip(1)[m];
                    assert(removed[k] == apps[m0 + 1]);
                }
            }
        }
    }
}

/// Removing entries keeps names unique: what `remove_app` does to the
/// registry.
pub proof fn lemma_remove_preserves_unique_names(apps: Seq<AppView>, lname: Seq<char>)
    requires
        unique_names(apps),
    ensures
        unique_names(remove_matches(apps, lname)),
    decreases apps.len(),
{
    if apps.len() > 0 {
        assert(apps.skip(1).len() == apps.len() - 1);
        assert forall|i: int, j: int| 0 <= i < j < apps.skip(1).len() implies lower_of(
            #[trigger] apps.skip(1)[i].name,
        ) != lower_of(#[trigger] apps.skip(1)[j].name) by {
            assert(apps.skip(1)[i] == apps[i + 1]);
            assert(apps.skip(1)[j] == apps[j + 1]);
        }
        lemma_remove_preserves_unique_names(apps.skip(1), lname);
        if lower_of(apps[0].name) != lname {
            let tail = remove_matches(apps.skip(1), lname);
            lemma_remove_matches_members(apps.skip(1), lname);
            let removed = remove_matches(apps, lname);
            assert(removed =~= seq![apps[0]] + tail);
            assert forall|i: int, j: int| 0 <= i < j < removed.len() implies lower_of(
                #[trigger] removed[i].name,
            ) != lower_of(#[trigger] removed[j].name) by {
                if i == 0 {
                    let m0 = choose|m: int|
                        0 <= m < apps.skip(1).len() && tail[j - 1] == apps.skip(1)[m];
                    assert(removed[j] == apps[m0 + 1]);
                    assert(lower_of(apps[0].name) != lower_of(apps[m0 + 1].name));
                } else {
                    assert(removed[i] == tail[i - 1]);
                    assert(removed[j] == tail[j - 1]);
                }
            }
        }
    }
}

/// The replaced registry, entry by entry: it has the same length, and
/// each position holds the replacement exactly where the old entry
/// matched.
proof fn lemma_replace_matches_pointwise(apps: Seq<AppView>, lname: Seq<char>, b: AppView)
    ensures
        replace_matches(apps, lname, b).len() == apps.len(),
        forall|k: int| 0 <= k < apps.len() ==> #[trigger] replace_matches(apps, lname, b)[k]
            == (if lower_of(apps[k].name) == lname {
            b
        } else {
            apps[k]
        }),
    decreases apps.len(),
{
    if apps.len() > 0 {
        lemma_replace_matches_pointwise(apps.skip(1), lname, b);
        let replaced = replace_matches(apps, lname, b);
        assert forall|k: int| 0 <= k < apps.len() implies #[trigger] replaced[k] == (if lower_of(
            apps[k].name,
        ) == lname {
            b
        } else {
            apps[k]
        }) by {
            if k > 0 {
                assert(replaced[k] == replace_matches(apps.skip(1), lname, b)[k - 1]);
                assert(apps.skip(1)[k - 1] == apps[k]);
            }
        }
    }
}

/// Replacing the matching entry with one whose name either keeps the
/// matched name's lowering or is not otherwise present keeps names
/// unique: what a permitted `update_app` does to the registry.
pub proof fn lemma_replace_preserves_unique_names(
    apps: Seq<AppView>,
    lname: Seq<char>,
    b: AppView,
)
    requires
        unique_names(apps),
        lower_of(b.name) == lname || !has_lower_name(apps, lower_of(b.name)),
    ensures
        unique_names(replace_matches(apps, lname, b)),
{
    lemma_replace_matches_pointwise(apps, lname, b);
    let replaced = replace_matches(apps, lname, b);
    assert forall|i: int, j: int| 0 <= i < j < replaced.len() implies lower_of(
        #[trigger] replaced[i].name,
    ) != lower_of(#[trigger] replaced[j].name) by {
        assert(replaced[i] == (if lower_of(apps[i].name) == lname { b } else { apps[i] }));
        assert(replaced[j] == (if lower_of(apps[j].name) == lname { b } else { apps[j] }));
        if lower_of(apps[i].name) == lname && lower_of(apps[j].name) == lname {
            assert(false);
        }
    }
}

/// The position of the first case-insensitive match is a position of the
/// registry exactly when some entry matches, no entry before it matches,
/// and the entry there matches.
pub proof fn lemma_first_lower_match(apps: Seq<AppView>, lname: Seq<char>)
    ensures
        0 <= first_lower_match(apps, lname) <= apps.len(),
        first_lower_match(apps, lname) < apps.len() <==> has_lower_name(apps, lname),
        first_lower_match(apps, lname) < apps.len() ==> lower_of(
            apps[first_lower_match(apps, lname)].name,
        ) == lname,
        forall|j: int| 0 <= j < first_lower_match(apps, lname) ==> lower_of(
            #[trigger] apps[j].name,
        ) != lname,
{
    lemma_first_from(apps, lname, 0);
}

proof fn lemma_first_from(apps: Seq<AppView>, lname: Seq<char>, i: int)
    requires
        0 <= i <= apps.len(),
    ensures
        i <= first_lower_match_from(apps, lname, i) <= apps.len(),
        first_lower_match_from(apps, lname, i) < apps.len() <==> exists|k: int|
            i <= k < apps.len() && lower_of(#[trigger] apps[k].name) == lname,
        first_lower_match_from(apps, lname, i) < apps.len() ==> lower_of(
            apps[first_lower_match_from(apps, lname, i)].name,
        ) == lname,
        forall|j: int| i <= j < first_lower_match_from(apps, lname, i) ==> lower_of(
            #[trigger] apps[j].name,
        ) != lname,
    decreases apps.len() - i,
{
    if i < apps.len() && lower_of(apps[i].name) != lname {
        lemma_first_from(apps, lname, i + 1);
    }
}

/// The registry the document holds; a missing document holds the empty
/// registry.
pub fn get_apps(contents: Option<&String>) -> (r: Result<Vec<App>, ProjectDataError>)
    ensures
        match r {
            Ok(apps) => parsed_registry(doc_view(contents)) == Some(reg_view(apps@)),
            Err(e) => e == ProjectDataError::MalformedData && parsed_registry(doc_view(contents))
                is None,
        },
{
    match contents {
        None => {
            let apps: Vec<App> = Vec::new();
            proof {
                assert(reg_view(apps@) =~= Seq::<AppView>::empty());
            }
            Ok(apps)
        },
        Some(s) => match read_registry(s.as_str()) {
            Some(apps) => Ok(apps),
            None => Err(ProjectDataError::MalformedData),
        },
    }
}

/// The position of the first entry matching `lname` case-insensitively,
/// or the length when none does; `lname` is already lowercased.
fn find_lower(apps: &Vec<App>, lname: &String) -> (k: usize)
    ensures
        k == first_lower_match(reg_view(apps@), lname@),
        k <= apps@.len(),
{
    proof {
        lemma_first_lower_match(reg_view(apps@), lname@);
    }
    let n = apps.len();
    let mut i: usize = 0;
    while i < n
        invariant
            i <= n,
            n == apps@.len(),
            forall|j: int| 0 <= j < i ==> lower_of(#[trigger] reg_view(apps@)[j].name) != lname@,
        decreases n - i,
    {
        let low = lowercase(apps[i].name.as_str());
        if low.eq(lname) {
            proof {
                assert(lower_of(reg_view(apps@)[i as int].name) == lname@);
                lemma_first_lower_match(reg_view(apps@), lname@);
            }
            return i;
        }
        proof {
            assert(lower_of(reg_view(apps@)[i as int].name) != lname@);
        }
        i = i + 1;
    }
    proof {
        lemma_first_lower_match(reg_view(apps@), lname@);
    }
    n
}

/// The first entry whose name matches the given one case-insensitively.
pub fn get_app(app_name: &str, contents: Option<&String>) -> (r: Result<
    Option<App>,
    ProjectDataError,
>)
    ensures
        parsed_registry(doc_view(contents)) is None ==> r == Err::<
            Option<App>,
            ProjectDataError,
        >(ProjectDataError::MalformedData),
        parsed_registry(doc_view(contents)) matches Some(apps) ==> match r {
            Ok(o) => {
                let k = first_lower_match(apps, lower_of(app_name@));
                match o {
                    Some(a) => k < apps.len() && a@ == apps[k],
                    None => !has_lower_name(apps, lower_of(app_name@)),
                }
            },
            Err(_) => false,
        },
{
    let apps = match get_apps(contents) {
        Ok(apps) => apps,
        Err(e) => {
            return Err(e);
        },
    };
    let lname = lowercase(app_name);
    let k = find_lower(&apps, &lname);
    proof {
        lemma_first_lower_match(reg_view(apps@), lname@);
    }
    if k < apps.len() {
        let a = apps[k].clone();
        proof {
            assert(a@ == reg_view(apps@)[k as int]);
        }
        Ok(Some(a))
    } else {
        Ok(None)
    }
}

/// Appends a new entry and returns the document to write back; a name
/// already present, compared case-insensitively, is rejected before
/// anything changes.
pub fn add_app(app: App, contents: Option<&String>) -> (r: Result<String, ProjectDataError>)
    ensures
        parsed_registry(doc_view(contents)) is None ==> r == Err::<String, ProjectDataError>(
            ProjectDataError::MalformedData,
        ),
        parsed_registry(doc_view(contents)) matches Some(apps) ==> match r {
            Ok(doc) => !has_lower_name(apps, lower_of(app@.name)) && doc@ == registry_json(
                apps.push(app@),
            ),
            Err(e) => e == ProjectDataError::InvalidInput && has_lower_name(
                apps,
                lower_of(app@.name),
            ),
        },
{
    let mut apps = match get_apps(contents) {
        Ok(apps) => apps,
        Err(e) => {
            return Err(e);
        },
    };
    let lname = lowercase(app.name.as_str());
    let k = find_lower(&apps, &lname);
    proof {
        lemma_first_lower_match(reg_view(apps@), lname@);
    }
    if k < apps.len() {
        return Err(ProjectDataError::InvalidInput);
    }
    let ghost before = reg_view(apps@);
    proof {
        assert(reg_view(apps@.push(app)) =~= before.push(app@));
    }
    apps.push(app);
    Ok(write_registry(&apps))
}

/// Replaces every entry whose name matches the given one
/// case-insensitively by the given entry, and returns the document to
/// write back; when none matches, nothing is written and the entry is
/// reported absent.
pub fn update_app(app_name: &str, app: &App, contents: Option<&String>) -> (r: Result<
    String,
    ProjectDataError,
>)
    ensures
        parsed_registry(doc_view(contents)) is None ==> r == Err::<String, ProjectDataError>(
            ProjectDataError::MalformedData,
        ),
        parsed_registry(doc_view(contents)) matches Some(apps) ==> match r {
            Ok(doc) => has_lower_name(apps, lower_of(app_name@)) && doc@ == registry_json(
                replace_matches(apps, lower_of(app_name@), app@),
            ),
            Err(e) => e == ProjectDataError::NotFound && !has_lower_name(
                apps,
                lower_of(app_name@),
            ),
        },
{
    let apps = match get_apps(contents) {
        Ok(apps) => apps,
        Err(e) => {
            return Err(e);
        },
    };
    let lname = lowercase(app_name);
    let k = find_lower(&apps, &lname);
    proof {
        lemma_first_lower_match(reg_view(apps@), lname@);
    }
    if k == apps.len() {
        return Err(ProjectDataError::NotFound);
    }
    let ghost before = reg_view(apps@);
    let n = apps.len();
    let mut out: Vec<App> = Vec::new();
    let mut i: usize = 0;
    proof {
        assert(before.skip(0) =~= before);
        assert(reg_view(out@) =~= Seq::<AppView>::empty());
        assert(reg_view(out@) + replace_matches(before, lname@, app@) =~= replace_matches(
            before,
            lname@,
            app@,
        ));
    }
    while i < n
        invariant
            i <= n,
            n == apps@.len(),
            lname@ == lower_of(app_name@),
            replace_matches(before, lname@, app@) == reg_view(out@) + replace_matches(
                before.skip(i as int),
                lname@,
                app@,
            ),
            before == reg_view(apps@),
        decreases n - i,
    {
        proof {
            assert(before.skip(i as int)[0] == before[i as int]);
            assert(before.skip(i as int).skip(1) =~= before.skip(i + 1 as int));
            assert(before[i as int] == apps@[i as int]@);
        }
        let ghost out_before = reg_view(out@);
        let low = lowercase(apps[i].name.as_str());
        if low.eq(&lname) {
            out.push(app.clone());
            proof {
                assert(reg_view(out@) =~= out_before + seq![app@]);
                assert(reg_view(out@) + replace_matches(before.skip(i + 1 as int), lname@, app@)
                    =~= out_before + (seq![app@] + replace_matches(
                    before.skip(i + 1 as int),
                    lname@,
                    app@,
                )));
            }
        } else {
            out.push(apps[i].clone());
            proof {
                assert(reg_view(out@) =~= out_before + seq![before[i as int]]);
                assert(reg_view(out@) + replace_matches(before.skip(i + 1 as int), lname@, app@)
                    =~= out_before + (seq![before[i as int]] + replace_matches(
                    before.skip(i + 1 as int),
                    lname@,
                    app@,
                )));
            }
        }
        i = i + 1;
    }
    proof {
        assert(before.skip(n as int) =~= Seq::<AppView>::empty());
        assert(reg_view(out@) + replace_matches(before.skip(n as int), lname@, app@) =~= reg_view(
            out@,
        ));
    }
    Ok(write_registry(&out))
}

/// Removes every entry whose name matches the given one
/// case-insensitively — none may match — and returns the document to
/// write back.
pub fn remove_app(app_name: &str, contents: Option<&String>) -> (r: Result<
    String,
    ProjectDataError,
>)
    ensures
        parsed_registry(doc_view(contents)) is None ==> r == Err::<String, ProjectDataError>(
            ProjectDataError::MalformedData,
        ),
        parsed_registry(doc_view(contents)) matches Some(apps) ==> match r {
            Ok(doc) => doc@ == registry_json(remove_matches(apps, lower_of(app_name@))),
            Err(_) => false,
        },
{
    let apps = match get_apps(contents) {
        Ok(apps) => apps,
        Err(e) => {
            return Err(e);
        },
    };
    let lname = lowercase(app_name);
    let ghost before = reg_view(apps@);
    let n = apps.len();
    let mut out: Vec<App> = Vec::new();
    let mut i: usize = 0;
    proof {
        assert(before.skip(0) =~= before);
        assert(reg_view(out@) =~= Seq::<AppView>::empty());
        assert(reg_view(out@) + remove_matches(before, lname@) =~= remove_matches(
            before,
            lname@,
        ));
    }
    while i < n
        invariant
            i <= n,
            n == apps@.len(),
            lname@ == lower_of(app_name@),
            remove_matches(before, lname@) == reg_view(out@) + remove_matches(
                before.skip(i as int),
                lname@,
            ),
            before == reg_view(apps@),
        decreases n - i,
    {
        proof {
            assert(before.skip(i as int)[0] == before[i as int]);
            assert(before.skip(i as int).skip(1) =~= before.skip(i + 1 as int));
        }
        let ghost out_before = reg_view(out@);
        let low = lowercase(apps[i].name.as_str());
        if !low.eq(&lname) {
            out.push(apps[i].clone());
            proof {
                assert(reg_view(out@) =~= out_before + seq![before[i as int]]);
                assert(reg_view(out@) + remove_matches(before.skip(i + 1 as int), lname@) =~= (
                out_before + (seq![before[i as int]] + remove_matches(
                    before.skip(i + 1 as int),
                    lname@,
                ))));
            }
        }
        i = i + 1;
    }
    proof {
        assert(before.skip(n as int) =~= Seq::<AppView>::empty());
        assert(reg_view(out@) + remove_matches(before.skip(n as int), lname@) =~= reg_view(out@));
    }
    Ok(write_registry(&out))
}

/// The configuration with the browser path set, and the configuration
/// document to write back.
pub fn set_browser_path(path: &str, config: &Config) -> (r: (Config, String))
    ensures
        r.0@.app_data_path == config@.app_data_path,
        r.0@.desktop_data_path == config@.desktop_data_path,
        r.0@.browser_path == Some(path@),
        r.1@ == config_json(r.0@),
{
    let new_config = Config {
        app_data_path: config.app_data_path.clone(),
        desktop_data_path: config.desktop_data_path.clone(),
        browser_path: Some(path.to_owned()),
    };
    let doc = write_config(&new_config);
    (new_config, doc)
}

/// The browser path the configuration holds.
pub fn get_browser_path(config: &Config) -> (r: Option<String>)
    ensures
        match r {
            Some(p) => config@.browser_path == Some(p@),
            None => config@.browser_path is None,
        },
{
    match &config.browser_path {
        Some(p) => Some(p.clone()),
        None => None,
    }
}

} // verus!
