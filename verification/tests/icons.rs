use tarantula::domain::{App, Config};
use tarantula::icons::{icon_probe_choice, store_icon};

fn test_config() -> Config {
    Config::new(
        "/tmp/tarantula-data".to_string(),
        "/tmp/tarantula-desktop".to_string(),
    )
}

#[test]
fn test_get_icon() {
    let app = App {
        name: "Perplexity".to_string(),
        url: "https://www.perplexity.ai/".to_string(),
        icon: None,
    };
    let config = test_config();

    let plan = store_icon(&app, &config).unwrap();
    assert_eq!(
        plan.save_path,
        format!("{}/perplexity.ico", "/tmp/tarantula-data")
    );
    assert_eq!(plan.urls.len(), 5);
    assert_eq!(plan.urls[0], "https://www.perplexity.ai/favicon.ico");
}

#[test]
fn probe_urls_follow_fixed_cascade() {
    let app = App {
        name: "Test App".to_string(),
        url: "https://example.com/some/page".to_string(),
        icon: None,
    };
    let plan = store_icon(&app, &test_config()).unwrap();
    assert_eq!(plan.urls[0], "https://example.com/favicon.ico");
    assert_eq!(plan.urls[1], "https://example.com/assets/favicon.ico");
    assert_eq!(plan.urls[2], "https://example.com/assets/favicon.png");
    assert_eq!(plan.urls[3], "https://example.com/images/favicon.ico");
    assert_eq!(plan.urls[4], "https://example.com/images/favicon.png");
    assert_eq!(plan.save_path, "/tmp/tarantula-data/test_app.ico");
}

#[test]
fn unparseable_url_yields_no_plan() {
    let app = App {
        name: "Broken".to_string(),
        url: "not a url".to_string(),
        icon: None,
    };
    assert!(store_icon(&app, &test_config()).is_none());
}

#[test]
fn first_successful_probe_wins() {
    // only the last candidate responds: the earlier failures are skipped
    let outcomes = vec![false, false, false, false, true];
    assert_eq!(icon_probe_choice(&outcomes), Some(4));

    let outcomes = vec![false, true, true, false, false];
    assert_eq!(icon_probe_choice(&outcomes), Some(1));
}

#[test]
fn all_probes_failing_yields_no_icon() {
    let outcomes = vec![false, false, false, false, false];
    assert_eq!(icon_probe_choice(&outcomes), None);
}
