use tarantula::desktop_data::{create_entry, remove_entry, update_entry};
use tarantula::domain::App;

#[test]
fn test_create_entry() {
    let app = App {
        name: "Test App".to_string(),
        url: "http://example.com".to_string(),
        icon: Some("test_icon".to_string()),
    };
    let entry = create_entry(&app);
    assert_eq!(entry.file_name, "test_app.desktop");

    let expected_content = "[Desktop Entry]\nName=Test App\nExec=tarantula Test App\nType=Application\nIcon=test_icon\n";
    assert_eq!(entry.content, expected_content);
}

#[test]
fn create_entry_without_icon_has_no_icon_line() {
    let app = App {
        name: "Test App".to_string(),
        url: "http://example.com".to_string(),
        icon: None,
    };
    let entry = create_entry(&app);
    assert_eq!(
        entry.content,
        "[Desktop Entry]\nName=Test App\nExec=tarantula Test App\nType=Application\n"
    );
}

#[test]
fn update_entry_regenerates_whole_file() {
    let app = App {
        name: "Test App".to_string(),
        url: "http://example.com".to_string(),
        icon: None,
    };
    let created = create_entry(&app);
    let updated = update_entry(&app);
    assert_eq!(created.file_name, updated.file_name);
    assert_eq!(created.content, updated.content);
}

#[test]
fn remove_entry_names_derived_file() {
    assert_eq!(remove_entry("Test App"), "test_app.desktop");
    assert_eq!(remove_entry("MiXeD Case Name"), "mixed_case_name.desktop");
}
