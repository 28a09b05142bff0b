use screen_share::clipboard::{first_helper, next_helper, HelperStep};
use screen_share::clipboard::{
    copy_commands, desktop_session, home_dir, paste_commands, resolve_server_uid, resolve_uid,
    server_copy_commands, server_paste_commands, server_session, ClipboardEnvironment,
};

fn empty_env() -> ClipboardEnvironment {
    ClipboardEnvironment {
        sudo_user: None,
        user: None,
        uid: None,
        xdg_runtime_dir: None,
        wayland_display: None,
        display: None,
        xauthority: None,
    }
}

#[test]
fn session_defaults() {
    let s = desktop_session(&empty_env(), "1000".to_string());
    assert_eq!(s.username, "user");
    assert_eq!(s.home_dir, "/home/user");
    assert_eq!(s.runtime_dir, "/run/user/1000");
    assert_eq!(s.wayland_display, "wayland-0");
    assert_eq!(s.display, ":0");
    assert_eq!(s.xauthority, "/home/user/.Xauthority");
}

#[test]
fn session_from_environment() {
    let mut env = empty_env();
    env.sudo_user = Some("root".to_string());
    env.user = Some("ana".to_string());
    env.xdg_runtime_dir = Some("/tmp/rt".to_string());
    env.display = Some(":1".to_string());
    let s = desktop_session(&env, "0".to_string());
    assert_eq!(s.username, "root");
    assert_eq!(s.home_dir, "/root");
    assert_eq!(s.runtime_dir, "/tmp/rt");
    assert_eq!(s.display, ":1");
    assert_eq!(s.xauthority, "/root/.Xauthority");
    assert_eq!(home_dir("bob"), "/home/bob");
}

#[test]
fn uid_resolution_order() {
    assert_eq!(resolve_uid(Some("42".into()), Some("7\n".into()), None), "42");
    assert_eq!(resolve_uid(None, Some(" 1001\n".into()), Some("5".into())), "1001");
    assert_eq!(resolve_uid(None, None, Some("5\n".into())), "5");
    assert_eq!(resolve_uid(None, None, None), "1000");
    assert_eq!(resolve_server_uid(Some("1002\n".into())), "1002");
    assert_eq!(resolve_server_uid(None), "1000");
}

#[test]
fn copy_plan_order() {
    let s = desktop_session(&empty_env(), "1000".to_string());
    let plan = copy_commands(&s, false);
    let programs: Vec<&str> = plan.iter().map(|c| c.program.as_str()).collect();
    assert_eq!(
        programs,
        vec![
            "wl-copy", "/app/bin/wl-copy", "/usr/bin/wl-copy", "/usr/local/bin/wl-copy", "xclip",
            "/app/bin/xclip", "/usr/bin/xclip", "xsel", "/app/bin/xsel", "/usr/bin/xsel"
        ]
    );
    assert!(plan[0].args.is_empty());
    assert_eq!(
        plan[0].envs,
        vec![
            ("XDG_RUNTIME_DIR".to_string(), "/run/user/1000".to_string()),
            ("WAYLAND_DISPLAY".to_string(), "wayland-0".to_string())
        ]
    );
    assert_eq!(plan[4].args, vec!["-selection", "clipboard"]);
    assert_eq!(plan[7].args, vec!["-ib"]);
    assert_eq!(plan[7].envs[1].1, "/home/user/.Xauthority");
    let flatpak = copy_commands(&s, true);
    assert_eq!(flatpak.len(), 11);
    assert_eq!(flatpak[10].program, "flatpak-spawn");
    assert_eq!(flatpak[10].args, vec!["--host", "wl-copy"]);
}

#[test]
fn paste_plan_order() {
    let s = desktop_session(&empty_env(), "1000".to_string());
    let plan = paste_commands(&s, true);
    assert_eq!(plan.len(), 11);
    assert_eq!(plan[0].args, vec!["-n", "--no-newline"]);
    assert_eq!(plan[4].args, vec!["-selection", "clipboard", "-o"]);
    assert_eq!(plan[9].args, vec!["-ob"]);
    assert_eq!(plan[10].args, vec!["--host", "wl-paste", "-n", "--no-newline"]);
}

#[test]
fn server_plans() {
    let s = server_session(&None, &Some("ana".to_string()), &None, "1001".to_string());
    assert_eq!(s.username, "ana");
    assert_eq!(s.xauthority, "/home/ana/.Xauthority");
    let copy = server_copy_commands(&s);
    let programs: Vec<&str> = copy.iter().map(|c| c.program.as_str()).collect();
    assert_eq!(programs, vec!["xclip", "xsel", "wl-copy", "sudo"]);
    assert_eq!(copy[2].envs, vec![("XDG_RUNTIME_DIR".to_string(), "/run/user/1001".to_string())]);
    assert_eq!(
        copy[3].args,
        vec![
            "-u", "ana", "env", "DISPLAY=:0", "XAUTHORITY=/home/ana/.Xauthority", "xclip",
            "-selection", "clipboard"
        ]
    );
    let paste = server_paste_commands(&s);
    assert_eq!(paste[2].args, vec!["-n"]);
    assert_eq!(paste[3].args.last().unwrap(), "-o");
    let anon = server_session(&None, &None, &None, "1000".to_string());
    assert_eq!(anon.username, "servidor");
}

#[test]
fn helpers_stop_at_first_success() {
    use_helper_steps();
}

fn use_helper_steps() {
    assert_eq!(first_helper(0), HelperStep::GiveUp);
    assert_eq!(first_helper(4), HelperStep::Try(0));
    assert_eq!(next_helper(0, false, 4), HelperStep::Try(1));
    assert_eq!(next_helper(1, true, 4), HelperStep::Done);
    assert_eq!(next_helper(3, false, 4), HelperStep::GiveUp);
}
