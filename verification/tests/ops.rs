use tarantula::app_data::get_apps;
use tarantula::install::{install, InstallError};
use tarantula::uninstall::{uninstall, UninstallError};
use tarantula::update::{update, UpdateError, UpdateOptions};

#[test]
fn test_install() {
    let name = "Test App";
    let url = "https://example.com";

    let outcome = install(name, url, None, None).unwrap();

    let apps = get_apps(Some(&outcome.registry_doc)).unwrap();
    assert_eq!(apps.len(), 1);
    assert_eq!(apps[0].name, name);
    assert_eq!(apps[0].url, url);
}

#[test]
fn test_uninstall() {
    let name = "Test App";
    let url = "https://example.com";

    let installed = install(name, url, None, None).unwrap();
    let removed = uninstall(name, Some(&installed.registry_doc)).unwrap();

    // removes the app entry
    let apps = get_apps(Some(&removed.registry_doc)).unwrap();
    assert_eq!(apps.len(), 0);

    // names exactly the derived desktop entry for deletion
    assert_eq!(removed.remove_file, "test_app.desktop");
}

#[test]
fn install_into_empty_registry_keeps_icon_null() {
    let outcome = install("Test App", "https://example.com", None, None).unwrap();
    let apps = get_apps(Some(&outcome.registry_doc)).unwrap();
    assert_eq!(apps.len(), 1);
    assert_eq!(apps[0].name, "Test App");
    assert_eq!(apps[0].url, "https://example.com");
    assert_eq!(apps[0].icon, None);
}

#[test]
fn install_reserved_name_is_rejected() {
    let result = install("install", "https://example.com", None, None);
    assert!(matches!(result, Err(InstallError::InvalidInput(_))));

    let result = install("Update", "https://example.com", None, None);
    assert!(matches!(result, Err(InstallError::InvalidInput(_))));
}

#[test]
fn install_duplicate_name_is_rejected() {
    let first = install("Test App", "https://example.com", None, None).unwrap();
    let result = install("test app", "https://other.example", None, Some(&first.registry_doc));
    assert!(matches!(result, Err(InstallError::InvalidInput(_))));
}

#[test]
fn install_stores_fetched_icon_path() {
    let outcome = install(
        "Test App",
        "https://example.com",
        Some("/data/test_app.ico".to_string()),
        None,
    )
    .unwrap();
    let apps = get_apps(Some(&outcome.registry_doc)).unwrap();
    assert_eq!(apps[0].icon, Some("/data/test_app.ico".to_string()));
    assert!(outcome.entry.content.contains("Icon=/data/test_app.ico\n"));
}

#[test]
fn uninstall_absent_app_is_not_found() {
    let installed = install("Test App", "https://example.com", None, None).unwrap();
    let result = uninstall("Missing", Some(&installed.registry_doc));
    assert!(matches!(result, Err(UninstallError::NotFound)));

    // the registry document it would have rewritten is untouched:
    // the operation returned nothing to write
    let apps = get_apps(Some(&installed.registry_doc)).unwrap();
    assert_eq!(apps.len(), 1);
}

#[test]
fn update_merges_only_supplied_fields() {
    let installed = install("Test App", "https://example.com", None, None).unwrap();
    let options = UpdateOptions {
        name: None,
        url: Some("https://new.com".to_string()),
    };
    let updated = update("Test App", &options, Some(&installed.registry_doc)).unwrap();

    let apps = get_apps(Some(&updated.registry_doc)).unwrap();
    assert_eq!(apps.len(), 1);
    assert_eq!(apps[0].name, "Test App");
    assert_eq!(apps[0].url, "https://new.com");

    // the derived file name did not change, so no old entry is removed
    assert_eq!(updated.old_entry, None);
}

#[test]
fn update_absent_app_is_not_found() {
    let options = UpdateOptions {
        name: None,
        url: Some("https://new.com".to_string()),
    };
    let result = update("Missing", &options, None);
    assert!(matches!(result, Err(UpdateError::NotFound)));
}

#[test]
fn update_rename_relinks_desktop_entry() {
    let installed = install("Test App", "https://example.com", None, None).unwrap();
    let options = UpdateOptions {
        name: Some("Renamed App".to_string()),
        url: None,
    };
    let updated = update("Test App", &options, Some(&installed.registry_doc)).unwrap();

    assert_eq!(updated.entry.file_name, "renamed_app.desktop");
    assert_eq!(updated.old_entry, Some("test_app.desktop".to_string()));

    let apps = get_apps(Some(&updated.registry_doc)).unwrap();
    assert_eq!(apps[0].name, "Renamed App");
    assert_eq!(apps[0].url, "https://example.com");
}

#[test]
fn update_rename_onto_other_app_is_rejected() {
    let first = install("Test App", "https://example.com", None, None).unwrap();
    let second = install("Other App", "https://other.example", None, Some(&first.registry_doc))
        .unwrap();
    let options = UpdateOptions {
        name: Some("test app".to_string()),
        url: None,
    };
    let result = update("Other App", &options, Some(&second.registry_doc));
    assert!(matches!(result, Err(UpdateError::InvalidInput(_))));
}
