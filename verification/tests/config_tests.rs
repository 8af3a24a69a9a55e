use github_release_collector::config::{
    default_concurrency, default_full_interval, default_incremental_interval, default_max_retries,
    default_per_page, default_timeout, Config,
};
use github_release_collector::Error;

fn base() -> Config {
    Config::with_defaults(None, Some("/run/grc.pid".to_string()))
}

#[test]
fn defaults() {
    assert_eq!(default_concurrency(), 5);
    assert_eq!(default_incremental_interval(), 3600);
    assert_eq!(default_full_interval(), 86400);
    assert_eq!(default_timeout(), 30);
    assert_eq!(default_per_page(), 100);
    assert_eq!(default_max_retries(), 3);
    let c = base();
    assert_eq!(c.concurrency, 5);
    assert_eq!(c.per_page, 100);
    assert!(c.github_token().is_none());
}

#[test]
fn set_each_setting() {
    let c = base();
    assert_eq!(c.set("concurrency", "8").unwrap().concurrency, 8);
    assert_eq!(c.set("incremental_interval", "60").unwrap().incremental_interval, 60);
    assert_eq!(c.set("full_interval", "+120").unwrap().full_interval, 120);
    assert_eq!(c.set("timeout", "5").unwrap().timeout, 5);
    assert_eq!(c.set("per_page", "30").unwrap().per_page, 30);
    assert_eq!(c.set("max_retries", "0").unwrap().max_retries, 0);
    let t = c.set("github_token", "tok123").unwrap();
    assert_eq!(t.github_token(), Some("tok123"));
}

#[test]
fn set_leaves_other_settings() {
    let c = base();
    let d = c.set("timeout", "99").unwrap();
    assert_eq!(d.timeout, 99);
    assert_eq!(d.concurrency, c.concurrency);
    assert_eq!(d.per_page, c.per_page);
    assert_eq!(d.full_interval, c.full_interval);
    assert_eq!(d.pid_path, c.pid_path);
}

#[test]
fn set_refuses_bad_values() {
    let c = base();
    match c.set("concurrency", "many") {
        Err(Error::Config(m)) => assert_eq!(m, "Invalid concurrency value"),
        _ => panic!("expected an error"),
    }
    match c.set("timeout", "-1") {
        Err(Error::Config(m)) => assert_eq!(m, "Invalid timeout value"),
        _ => panic!("expected an error"),
    }
    match c.set("per_page", "") {
        Err(Error::Config(m)) => assert_eq!(m, "Invalid per_page value"),
        _ => panic!("expected an error"),
    }
    match c.set("colour", "blue") {
        Err(e) => assert_eq!(e.message(), "Configuration error: Unknown config key: colour"),
        _ => panic!("expected an error"),
    }
}

#[test]
fn loaded_settings_are_completed() {
    let c = Config::with_defaults(None, None);
    let c = c.complete_loaded("/p/daemon.pid".to_string(), Some("env-token".to_string()));
    assert_eq!(c.pid_path.as_deref(), Some("/p/daemon.pid"));
    assert_eq!(c.github_token(), Some("env-token"));
    let c = Config::with_defaults(Some("file-token".to_string()), None);
    let c = c.complete_loaded("/p/daemon.pid".to_string(), Some("env-token".to_string()));
    assert_eq!(c.github_token(), Some("file-token"));
}

#[test]
fn summary_text() {
    let c = base();
    let s = c.render_summary("/d/releases.db", "/c/config.toml", "/d/daemon.pid");
    assert_eq!(
        s,
        "Configuration:\n  Concurrency: 5\n  Incremental Interval: 3600 seconds\n  Full Interval: 86400 seconds\n  Timeout: 30 seconds\n  Per Page: 100\n  Max Retries: 3\n  Database: /d/releases.db\n  Config File: /c/config.toml\n  PID File: /d/daemon.pid\n  GitHub Token: NOT SET\n"
    );
    let t = c.set("github_token", "x").unwrap();
    assert!(t.render_summary("a", "b", "c").ends_with("GitHub Token: configured (from env/config)\n"));
    let shown = c.display_text();
    assert!(shown.contains("releases.db\n"));
    assert!(shown.contains("config.toml\n"));
}

#[test]
fn file_paths() {
    let c = base();
    assert!(c.database_path().ends_with("/releases.db"));
    assert!(Config::pid_path().unwrap().ends_with("/daemon.pid"));
    assert!(Config::config_path().unwrap().ends_with("/config.toml"));
    assert_eq!(c.daemon_pid_path(), "/run/grc.pid");
    let d = Config::with_defaults(None, None);
    assert!(d.daemon_pid_path().ends_with("daemon.pid"));
}

#[test]
fn directories_fall_back() {
    assert_eq!(Config::data_dir_from(None), "~/.local/share/grc");
    assert_eq!(Config::config_dir_from(None), "~/.config/grc");
    assert_eq!(Config::data_dir_from(Some("/home/a/.local/share/grc".to_string())), "/home/a/.local/share/grc");
    assert_eq!(Config::config_dir_from(Some("/c".to_string())), "/c");
}

#[test]
fn data_dir_names_the_collector() {
    let d = Config::data_dir();
    assert!(d == "~/.local/share/grc" || d.contains("github-release-collector"));
    let db = Config::with_defaults(None, None).database_path();
    assert!(db.starts_with(&d));
}

#[test]
fn paths_within_a_directory() {
    assert_eq!(Config::database_path_in("/home/a/.local/share/github-release-collector"), "/home/a/.local/share/github-release-collector/releases.db");
    assert_eq!(Config::pid_path_in("/data/"), "/data/daemon.pid");
    assert_eq!(Config::config_path_in("~/.config/grc"), "~/.config/grc/config.toml");
    let d = Config::data_dir();
    assert_eq!(Config::pid_path().unwrap(), Config::pid_path_in(&d));
    assert_eq!(Config::with_defaults(None, None).database_path(), Config::database_path_in(&d));
}

#[test]
fn summary_never_shows_the_token() {
    let a = Config::with_defaults(Some("secret-a".to_string()), None);
    let b = Config::with_defaults(Some("secret-b".to_string()), None);
    let n = Config::with_defaults(None, None);
    let sa = a.render_summary("x", "y", "z");
    assert_eq!(sa, b.render_summary("x", "y", "z"));
    assert!(!sa.contains("secret-a"));
    assert!(sa.contains("GitHub Token: configured (from env/config)"));
    assert!(n.render_summary("x", "y", "z").contains("GitHub Token: NOT SET"));
}
