use tarantula::config::default_config_contents;
use tarantula::domain::{App, Config};
use tarantula::jsonread::{read_config, read_registry};
use tarantula::jsonwrite::{write_config, write_registry};

#[test]
fn registry_round_trip_two_entries() {
    let apps = vec![
        App {
            name: "Test App".to_string(),
            url: "https://example.com".to_string(),
            icon: None,
        },
        App {
            name: "Second".to_string(),
            url: "https://second.example".to_string(),
            icon: Some("/tmp/second.ico".to_string()),
        },
    ];
    let doc = write_registry(&apps);
    let back = read_registry(&doc).unwrap();
    assert_eq!(back.len(), 2);
    assert_eq!(back[0].name, "Test App");
    assert_eq!(back[0].url, "https://example.com");
    assert_eq!(back[0].icon, None);
    assert_eq!(back[1].name, "Second");
    assert_eq!(back[1].icon, Some("/tmp/second.ico".to_string()));
}

#[test]
fn registry_round_trip_empty() {
    let apps: Vec<App> = vec![];
    let doc = write_registry(&apps);
    assert_eq!(doc, "[]");
    let back = read_registry(&doc).unwrap();
    assert_eq!(back.len(), 0);
}

#[test]
fn registry_round_trip_escaped_characters() {
    let apps = vec![App {
        name: "A \"quoted\"\\name\nwith\ttabs\u{1}".to_string(),
        url: "https://example.com/?q=\u{00e9}\u{1f600}".to_string(),
        icon: None,
    }];
    let doc = write_registry(&apps);
    let back = read_registry(&doc).unwrap();
    assert_eq!(back.len(), 1);
    assert_eq!(back[0].name, apps[0].name);
    assert_eq!(back[0].url, apps[0].url);
}

#[test]
fn reader_accepts_other_whitespace_and_key_order() {
    let doc = "  [ { \"url\" : \"https://example.com\" ,\n \"icon\" : null , \"name\" : \"Test App\" } ]  ".to_string();
    let back = read_registry(&doc).unwrap();
    assert_eq!(back.len(), 1);
    assert_eq!(back[0].name, "Test App");
    assert_eq!(back[0].url, "https://example.com");
    assert_eq!(back[0].icon, None);
}

#[test]
fn reader_decodes_unicode_escapes() {
    let doc = "[{\"name\": \"\\u0041pp\", \"url\": \"https://example.com\", \"icon\": null}]"
        .to_string();
    let back = read_registry(&doc).unwrap();
    assert_eq!(back[0].name, "App");
}

#[test]
fn reader_rejects_trailing_text_and_missing_fields() {
    assert!(read_registry("[] trailing").is_none());
    assert!(read_registry("[{\"name\": \"x\", \"url\": \"y\"}]").is_none());
    assert!(read_registry("[{\"name\": \"x\", \"url\": \"y\", \"icon\": null, \"extra\": \"z\"}]").is_none());
    assert!(read_registry("").is_none());
    assert!(read_registry("[{\"name\": null, \"url\": \"y\", \"icon\": null}]").is_none());
}

#[test]
fn config_round_trip() {
    let config = Config {
        app_data_path: "/home/user/.local/share/tarantula".to_string(),
        desktop_data_path: "/home/user/.local/share/applications".to_string(),
        browser_path: Some("/usr/bin/chromium".to_string()),
    };
    let doc = write_config(&config);
    let back = read_config(&doc).unwrap();
    assert_eq!(back.app_data_path, config.app_data_path);
    assert_eq!(back.desktop_data_path, config.desktop_data_path);
    assert_eq!(back.browser_path, config.browser_path);
}

#[test]
fn default_config_document_is_exact_and_readable() {
    let doc = default_config_contents();
    assert_eq!(
        doc,
        "{\"app_data_path\":\"\",\"desktop_data_path\":\"\",\"browser_path\":null}"
    );
    let back = read_config(&doc).unwrap();
    assert_eq!(back.app_data_path, "");
    assert_eq!(back.browser_path, None);
}
