use tarantula::app_data::{add_app, set_browser_path};
use tarantula::browser::{browser_probe, get_exec_from_desktop, BrowserProbe};
use tarantula::config::{get_browser_path, update_browser_path, ConfigError};
use tarantula::domain::{App, Config};
use tarantula::jsonread::read_config;
use tarantula::run::{launch_plan, run, RunDecision, RunError};
use tarantula::text::is_url;

fn test_config() -> Config {
    Config::new("/tmp/tarantula-data".to_string(), "/tmp/tarantula-desktop".to_string())
}

#[test]
fn test_detects_url() {
    let url = "https://example.com";
    assert!(is_url(url));
}

#[test]
fn detects_non_url() {
    let not_url = "example.com";
    assert!(!is_url(not_url));
}

#[test]
fn exec_line_token_is_extracted() {
    let content = "[Desktop Entry]\nName=Firefox\nExec=/usr/bin/firefox %u\nType=Application\n";
    assert_eq!(
        get_exec_from_desktop(content),
        Some("/usr/bin/firefox".to_string())
    );
}

#[test]
fn exec_token_is_cut_at_placeholder() {
    let content = "Exec=/usr/bin/firefox%u --new\n";
    assert_eq!(
        get_exec_from_desktop(content),
        Some("/usr/bin/firefox".to_string())
    );
}

#[test]
fn file_without_exec_line_yields_nothing() {
    let content = "[Desktop Entry]\nName=Firefox\nType=Application\n";
    assert_eq!(get_exec_from_desktop(content), None);
}

#[test]
fn empty_exec_line_is_passed_over() {
    let content = "Exec=   \nExec= /usr/bin/firefox\n";
    assert_eq!(
        get_exec_from_desktop(content),
        Some("/usr/bin/firefox".to_string())
    );
}

#[test]
fn browser_probes_follow_fixed_cascade() {
    let b = "firefox.desktop";
    assert!(matches!(
        browser_probe(b, 0),
        Some(BrowserProbe::DesktopFile(p)) if p == "/usr/share/applications/firefox.desktop"
    ));
    assert!(matches!(
        browser_probe(b, 1),
        Some(BrowserProbe::DesktopFile(p)) if p == "/etc/xdg/autostart/firefox.desktop"
    ));
    assert!(matches!(
        browser_probe(b, 2),
        Some(BrowserProbe::Binary(p)) if p == "/usr/bin/firefox.desktop"
    ));
    assert!(matches!(
        browser_probe(b, 3),
        Some(BrowserProbe::Binary(p)) if p == "/usr/local/bin/firefox.desktop"
    ));
    assert!(matches!(
        browser_probe(b, 4),
        Some(BrowserProbe::Binary(p)) if p == "/snap/bin/firefox.desktop"
    ));
    assert!(browser_probe(b, 5).is_none());
}

#[test]
fn run_launches_installed_app_with_configured_browser() {
    let doc = add_app(
        App {
            name: "Test App".to_string(),
            url: "https://example.com".to_string(),
            icon: None,
        },
        None,
    )
    .unwrap();
    let mut config = test_config();
    config.browser_path = Some("/usr/bin/chromium".to_string());

    let decision = run("Test App", Some(&doc), &config).unwrap();
    match decision {
        RunDecision::Launch(plan) => {
            assert_eq!(plan.program, "/usr/bin/chromium");
            assert_eq!(plan.arg, "--app=https://example.com");
        }
        RunDecision::ResolveBrowser(_) => panic!("browser was configured"),
    }
}

#[test]
fn run_asks_for_resolution_without_configured_browser() {
    let config = test_config();
    let decision = run("https://example.com", None, &config).unwrap();
    assert!(matches!(
        decision,
        RunDecision::ResolveBrowser(u) if u == "https://example.com"
    ));
}

#[test]
fn run_of_unknown_name_is_not_found() {
    let config = test_config();
    let result = run("nowhere", None, &config);
    assert!(matches!(result, Err(RunError::NotFound(n)) if n == "nowhere"));
}

#[test]
fn launch_plan_builds_app_mode_argument() {
    let plan = launch_plan("/usr/bin/chromium", "https://example.com");
    assert_eq!(plan.program, "/usr/bin/chromium");
    assert_eq!(plan.arg, "--app=https://example.com");
}

#[test]
fn update_browser_path_rejects_missing_executable() {
    let mut config = test_config();
    let result = update_browser_path("/no/such/browser", false, &mut config);
    assert!(matches!(result, Err(ConfigError::InvalidPath(_))));
    assert_eq!(config.browser_path, None);
}

#[test]
fn update_browser_path_persists_setting() {
    let mut config = test_config();
    let doc = update_browser_path("/usr/bin/chromium", true, &mut config).unwrap();
    assert_eq!(config.browser_path, Some("/usr/bin/chromium".to_string()));

    let back = read_config(&doc).unwrap();
    assert_eq!(back.browser_path, Some("/usr/bin/chromium".to_string()));
    assert_eq!(get_browser_path(Some(&doc)).unwrap(), Some("/usr/bin/chromium".to_string()));
}

#[test]
fn get_browser_path_of_missing_file_is_none() {
    assert_eq!(get_browser_path(None).unwrap(), None);
}

#[test]
fn set_browser_path_updates_config_document() {
    let config = test_config();
    let (new_config, doc) = set_browser_path("/usr/bin/chromium", &config);
    assert_eq!(new_config.browser_path, Some("/usr/bin/chromium".to_string()));
    assert_eq!(new_config.app_data_path, config.app_data_path);
    let back = read_config(&doc).unwrap();
    assert_eq!(back.browser_path, Some("/usr/bin/chromium".to_string()));
}
