use screen_share::launcher::{remember_ip, LauncherApp, LauncherConfig};

fn config(history: &[&str]) -> LauncherConfig {
    LauncherConfig {
        last_ip: "1.1.1.1".to_string(),
        history: history.iter().map(|s| s.to_string()).collect(),
    }
}

#[test]
fn launcher_starts_from_config() {
    let app = LauncherApp::new(&config(&["a", "b"]));
    assert_eq!(app.ip, "1.1.1.1");
    assert_eq!(app.history, vec!["a", "b"]);
    let empty = LauncherConfig::empty();
    assert!(empty.last_ip.is_empty() && empty.history.is_empty());
}

#[test]
fn launcher_submit_trims() {
    let mut app = LauncherApp::new(&config(&["10.0.0.9"]));
    app.ip = "  192.168.1.50 \t".to_string();
    assert_eq!(app.submit(), Some("192.168.1.50".to_string()));
    app.ip = "   ".to_string();
    assert_eq!(app.submit(), None);
    app.pick_recent(0);
    assert_eq!(app.ip, "10.0.0.9");
}

#[test]
fn history_new_address_goes_first_and_keeps_five() {
    let mut c = config(&["a", "b", "c", "d", "e"]);
    remember_ip(&mut c, &"f".to_string());
    assert_eq!(c.last_ip, "f");
    assert_eq!(c.history, vec!["f", "a", "b", "c", "d"]);
}

#[test]
fn history_known_address_moves_first() {
    let mut c = config(&["a", "b", "c"]);
    remember_ip(&mut c, &"c".to_string());
    assert_eq!(c.history, vec!["c", "a", "b"]);
    remember_ip(&mut c, &"c".to_string());
    assert_eq!(c.history, vec!["c", "a", "b"]);
    let mut short = config(&[]);
    remember_ip(&mut short, &"x".to_string());
    assert_eq!(short.history, vec!["x"]);
}

#[test]
fn launcher_config_path() {
    use_config_path();
}

fn use_config_path() {
    assert_eq!(
        screen_share::launcher::config_path(Some("/home/ana".to_string())),
        Some("/home/ana/.config/rs-view/config.json".to_string())
    );
    assert_eq!(
        screen_share::launcher::config_path(Some("/root/".to_string())),
        Some("/root/.config/rs-view/config.json".to_string())
    );
    assert_eq!(screen_share::launcher::config_path(None), None);
    let expected = std::path::PathBuf::from("/home/x").join(".config").join("rs-view").join("config.json");
    assert_eq!(
        screen_share::launcher::config_path(Some("/home/x".to_string())).unwrap(),
        expected.to_str().unwrap()
    );
}
