use tarantula::app_data::{add_app, get_app, get_apps, remove_app, update_app, ProjectDataError};
use tarantula::domain::App;

fn sample_app() -> App {
    App {
        name: "Test App".to_string(),
        url: "https://example.com".to_string(),
        icon: None,
    }
}

#[test]
fn test_add_app() {
    let result = add_app(sample_app(), None);
    assert!(result.is_ok());

    let contents = result.unwrap();
    let expected = "[\n  {\n    \"name\": \"Test App\",\n    \"url\": \"https://example.com\",\n    \"icon\": null\n  }\n]";
    assert_eq!(contents, expected);
}

#[test]
fn test_get_app() {
    let doc = add_app(sample_app(), None).unwrap();

    let app = get_app("Test App", Some(&doc)).unwrap();
    assert!(app.is_some());

    let app = app.unwrap();
    assert_eq!(app.name, "Test App");
    assert_eq!(app.url, "https://example.com");
}

#[test]
fn test_get_app_not_found() {
    let app = get_app("Test App", None).unwrap();
    assert!(app.is_none());
}

#[test]
fn test_get_apps() {
    let app = sample_app();
    let doc = add_app(app.clone(), None).unwrap();

    let apps = get_apps(Some(&doc)).unwrap();
    assert_eq!(apps.len(), 1);
    assert_eq!(apps[0].name, app.name);
    assert_eq!(apps[0].url, app.url);
}

#[test]
fn test_update_app() {
    let doc = add_app(sample_app(), None).unwrap();

    let new_app = App {
        name: "Test App new".to_string(),
        url: "https://example2.com".to_string(),
        icon: None,
    };
    let doc = update_app("Test App", &new_app, Some(&doc)).unwrap();

    let apps = get_apps(Some(&doc)).unwrap();
    assert_eq!(apps.len(), 1);
    assert_eq!(apps[0].name, "Test App new");
    assert_eq!(apps[0].url, "https://example2.com");
}

#[test]
fn test_remove_app() {
    let doc = add_app(sample_app(), None).unwrap();

    let apps = get_apps(Some(&doc)).unwrap();
    assert_eq!(apps.len(), 1);

    let doc = remove_app("Test App", Some(&doc)).unwrap();

    let apps = get_apps(Some(&doc)).unwrap();
    assert_eq!(apps.len(), 0);
}

#[test]
fn get_app_is_case_insensitive() {
    let doc = add_app(sample_app(), None).unwrap();

    let found = get_app("TEST APP", Some(&doc)).unwrap();
    assert!(found.is_some());
    assert_eq!(found.unwrap().name, "Test App");

    let missing = get_app("Other App", Some(&doc)).unwrap();
    assert!(missing.is_none());
}

#[test]
fn add_app_rejects_duplicate_name() {
    let doc = add_app(sample_app(), None).unwrap();

    let twin = App {
        name: "test APP".to_string(),
        url: "https://elsewhere.example".to_string(),
        icon: None,
    };
    let result = add_app(twin, Some(&doc));
    assert!(matches!(result, Err(ProjectDataError::InvalidInput)));
}

#[test]
fn malformed_document_is_rejected() {
    let broken = "[{\"name\": \"x\"".to_string();
    assert!(matches!(get_apps(Some(&broken)), Err(ProjectDataError::MalformedData)));
    assert!(matches!(
        get_app("x", Some(&broken)),
        Err(ProjectDataError::MalformedData)
    ));
    assert!(matches!(
        add_app(sample_app(), Some(&broken)),
        Err(ProjectDataError::MalformedData)
    ));
    assert!(matches!(
        remove_app("x", Some(&broken)),
        Err(ProjectDataError::MalformedData)
    ));
}

#[test]
fn update_app_absent_name_is_not_found() {
    let doc = add_app(sample_app(), None).unwrap();
    let other = App {
        name: "Other".to_string(),
        url: "https://other.example".to_string(),
        icon: None,
    };
    let result = update_app("Missing", &other, Some(&doc));
    assert!(matches!(result, Err(ProjectDataError::NotFound)));
}

#[test]
fn remove_app_of_absent_name_keeps_entries() {
    let doc = add_app(sample_app(), None).unwrap();
    let doc = remove_app("Missing", Some(&doc)).unwrap();
    let apps = get_apps(Some(&doc)).unwrap();
    assert_eq!(apps.len(), 1);
    assert_eq!(apps[0].name, "Test App");
}
