//! Where the desktop session's clipboard is, and the helper programs tried,
//! in order, to write or read it. The programs themselves run outside the
//! library; the first that succeeds decides the outcome.

use crate::capture::{push_str, push_string, string_views};
use crate::text::{trim, trimmed};
use vstd::prelude::*;

verus! {

/// The environment variables that locate the desktop session (each `None`
/// when unset).
pub struct ClipboardEnvironment {
    pub sudo_user: Option<String>,
    pub user: Option<String>,
    pub uid: Option<String>,
    pub xdg_runtime_dir: Option<String>,
    pub wayland_display: Option<String>,
    pub display: Option<String>,
    pub xauthority: Option<String>,
}

/// The desktop session whose clipboard is used.
pub struct DesktopSession {
    pub username: String,
    pub uid: String,
    pub runtime_dir: String,
    pub wayland_display: String,
    pub display: String,
    pub home_dir: String,
    pub xauthority: String,
}

/// The model of a session.
pub struct SessionModel {
    pub username: Seq<char>,
    pub uid: Seq<char>,
    pub runtime_dir: Seq<char>,
    pub wayland_display: Seq<char>,
    pub display: Seq<char>,
    pub home_dir: Seq<char>,
    pub xauthority: Seq<char>,
}

/// The model of a session.
pub open spec fn session_view(s: DesktopSession) -> SessionModel {
    SessionModel {
        username: s.username@,
        uid: s.uid@,
        runtime_dir: s.runtime_dir@,
        wayland_display: s.wayland_display@,
        display: s.display@,
        home_dir: s.home_dir@,
        xauthority: s.xauthority@,
    }
}

/// The characters of an optional string.
pub open spec fn opt_view(s: Option<String>) -> Option<Seq<char>> {
    match s {
        Some(v) => Some(v@),
        None => None,
    }
}

/// `s` if set, otherwise `default`.
pub open spec fn or_default(s: Option<Seq<char>>, default: Seq<char>) -> Seq<char> {
    match s {
        Some(v) => v,
        None => default,
    }
}

/// The user whose session is used: `SUDO_USER`, else `USER`, else
/// `fallback`.
pub open spec fn session_user(
    sudo_user: Option<Seq<char>>,
    user: Option<Seq<char>>,
    fallback: Seq<char>,
) -> Seq<char> {
    match sudo_user {
        Some(u) => u,
        None => or_default(user, fallback),
    }
}

/// The home directory of `user`.
pub open spec fn home_of(user: Seq<char>) -> Seq<char> {
    if user == "root"@ {
        "/root"@
    } else {
        "/home/"@ + user
    }
}

/// The uid of the session user: the `UID` variable, else what `id -u
/// <user>` printed, else what `id -u` printed (both trimmed), else 1000.
pub open spec fn session_uid(
    uid_var: Option<Seq<char>>,
    user_lookup: Option<Seq<char>>,
    own_lookup: Option<Seq<char>>,
) -> Seq<char> {
    match uid_var {
        Some(u) => u,
        None => match user_lookup {
            Some(o) => trimmed(o),
            None => match own_lookup {
                Some(o) => trimmed(o),
                None => "1000"@,
            },
        },
    }
}

/// The desktop session for the clipboard helpers, given the environment and
/// the uid.
pub open spec fn desktop_session_spec(env: ClipboardEnvironment, uid: Seq<char>) -> SessionModel {
    let user = session_user(opt_view(env.sudo_user), opt_view(env.user), "user"@);
    let home = home_of(user);
    SessionModel {
        username: user,
        uid,
        runtime_dir: or_default(opt_view(env.xdg_runtime_dir), "/run/user/"@ + uid),
        wayland_display: or_default(opt_view(env.wayland_display), "wayland-0"@),
        display: or_default(opt_view(env.display), ":0"@),
        home_dir: home,
        xauthority: or_default(opt_view(env.xauthority), home + "/.Xauthority"@),
    }
}

/// `s` if set, otherwise a copy of `default`.
fn value_or(s: &Option<String>, default: &str) -> (r: String)
    ensures
        r@ == or_default(opt_view(*s), default@),
{
    match s {
        Some(v) => v.clone(),
        None => String::from_str(default),
    }
}

/// The session user: `SUDO_USER`, else `USER`, else `fallback`.
pub fn session_username(sudo_user: &Option<String>, user: &Option<String>, fallback: &str) -> (r:
    String)
    ensures
        r@ == session_user(opt_view(*sudo_user), opt_view(*user), fallback@),
{
    match sudo_user {
        Some(u) => u.clone(),
        None => value_or(user, fallback),
    }
}

/// The home directory of `user` (`/root` for root).
pub fn home_dir(user: &str) -> (r: String)
    ensures
        r@ == home_of(user@),
{
    proof {
        reveal_strlit("root");
    }
    if crate::text::str_eq(user, "root") {
        String::from_str("/root")
    } else {
        String::from_str("/home/").concat(user)
    }
}

/// The session user's uid (see `session_uid`); the lookups are what the
/// two `id` commands printed, when they succeeded.
pub fn resolve_uid(
    uid_var: Option<String>,
    user_lookup: Option<String>,
    own_lookup: Option<String>,
) -> (r: String)
    ensures
        r@ == session_uid(opt_view(uid_var), opt_view(user_lookup), opt_view(own_lookup)),
{
    match uid_var {
        Some(u) => u,
        None => match user_lookup {
            Some(o) => trim(o.as_str()),
            None => match own_lookup {
                Some(o) => trim(o.as_str()),
                None => String::from_str("1000"),
            },
        },
    }
}

/// The desktop session for the clipboard helpers.
pub fn desktop_session(env: &ClipboardEnvironment, uid: String) -> (s: DesktopSession)
    ensures
        session_view(s) == desktop_session_spec(*env, uid@),
{
    let username = session_username(&env.sudo_user, &env.user, "user");
    let home = home_dir(username.as_str());
    let runtime_dir = match &env.xdg_runtime_dir {
        Some(d) => d.clone(),
        None => String::from_str("/run/user/").concat(uid.as_str()),
    };
    let wayland_display = value_or(&env.wayland_display, "wayland-0");
    let display = value_or(&env.display, ":0");
    let xauthority = match &env.xauthority {
        Some(x) => x.clone(),
        None => home.clone().concat("/.Xauthority"),
    };
    DesktopSession {
        username,
        uid,
        runtime_dir,
        wayland_display,
        display,
        home_dir: home,
        xauthority,
    }
}

/// The desktop session as the server's input handler finds it: the user
/// from `SUDO_USER` or `USER` (else "servidor"), `DISPLAY` (else ":0"), the
/// X authority file in the user's home, and the runtime directory of
/// `uid`.
pub open spec fn server_session_spec(
    sudo_user: Option<Seq<char>>,
    user: Option<Seq<char>>,
    display: Option<Seq<char>>,
    uid: Seq<char>,
) -> SessionModel {
    let name = session_user(sudo_user, user, "servidor"@);
    let home = home_of(name);
    SessionModel {
        username: name,
        uid,
        runtime_dir: "/run/user/"@ + uid,
        wayland_display: "wayland-0"@,
        display: or_default(display, ":0"@),
        home_dir: home,
        xauthority: home + "/.Xauthority"@,
    }
}

/// The uid as the server's input handler finds it: what `id -u <user>`
/// printed (trimmed), else 1000.
pub open spec fn server_uid(user_lookup: Option<Seq<char>>) -> Seq<char> {
    match user_lookup {
        Some(o) => trimmed(o),
        None => "1000"@,
    }
}

/// The server's uid (see `server_uid`).
pub fn resolve_server_uid(user_lookup: Option<String>) -> (r: String)
    ensures
        r@ == server_uid(opt_view(user_lookup)),
{
    match user_lookup {
        Some(o) => trim(o.as_str()),
        None => String::from_str("1000"),
    }
}

/// The server's desktop session (see `server_session_spec`).
pub fn server_session(
    sudo_user: &Option<String>,
    user: &Option<String>,
    display: &Option<String>,
    uid: String,
) -> (s: DesktopSession)
    ensures
        session_view(s) == server_session_spec(
            opt_view(*sudo_user),
            opt_view(*user),
            opt_view(*display),
            uid@,
        ),
{
    let username = session_username(sudo_user, user, "servidor");
    let home = home_dir(username.as_str());
    let runtime_dir = String::from_str("/run/user/").concat(uid.as_str());
    let xauthority = home.clone().concat("/.Xauthority");
    DesktopSession {
        username,
        uid,
        runtime_dir,
        wayland_display: String::from_str("wayland-0"),
        display: value_or(display, ":0"),
        home_dir: home,
        xauthority,
    }
}

/// One helper program to run: its path, arguments and extra environment.
pub struct ClipboardCommand {
    pub program: String,
    pub args: Vec<String>,
    pub envs: Vec<(String, String)>,
}

/// The model of a command.
pub struct CommandModel {
    pub program: Seq<char>,
    pub args: Seq<Seq<char>>,
    pub envs: Seq<(Seq<char>, Seq<char>)>,
}

/// The contents of a list of variable settings.
pub open spec fn env_views(v: Seq<(String, String)>) -> Seq<(Seq<char>, Seq<char>)> {
    Seq::new(v.len(), |k: int| (v[k].0@, v[k].1@))
}

/// The model of a command.
pub open spec fn command_view(c: ClipboardCommand) -> CommandModel {
    CommandModel { program: c.program@, args: string_views(c.args@), envs: env_views(c.envs@) }
}

/// The models of a plan.
pub open spec fn plan_view(p: Seq<ClipboardCommand>) -> Seq<CommandModel> {
    Seq::new(p.len(), |k: int| command_view(p[k]))
}

/// The variables that point a Wayland helper at the session.
pub open spec fn wayland_env(s: SessionModel) -> Seq<(Seq<char>, Seq<char>)> {
    seq![("XDG_RUNTIME_DIR"@, s.runtime_dir), ("WAYLAND_DISPLAY"@, s.wayland_display)]
}

/// The variables that point an X11 helper at the session.
pub open spec fn x11_env(s: SessionModel) -> Seq<(Seq<char>, Seq<char>)> {
    seq![("DISPLAY"@, s.display), ("XAUTHORITY"@, s.xauthority)]
}

/// A command model.
pub open spec fn cmd(
    program: Seq<char>,
    args: Seq<Seq<char>>,
    envs: Seq<(Seq<char>, Seq<char>)>,
) -> CommandModel {
    CommandModel { program, args, envs }
}

/// The helpers that write the clipboard, in the order they are tried:
/// wl-copy (on the path, then in /app/bin, /usr/bin, /usr/local/bin),
/// xclip, xsel, and inside Flatpak wl-copy on the host.
pub open spec fn copy_plan(s: SessionModel, in_flatpak: bool) -> Seq<CommandModel> {
    let w = wayland_env(s);
    let x = x11_env(s);
    let xclip_args = seq!["-selection"@, "clipboard"@];
    let xsel_args = seq!["-ib"@];
    seq![
        cmd("wl-copy"@, seq![], w),
        cmd("/app/bin/wl-copy"@, seq![], w),
        cmd("/usr/bin/wl-copy"@, seq![], w),
        cmd("/usr/local/bin/wl-copy"@, seq![], w),
        cmd("xclip"@, xclip_args, x),
        cmd("/app/bin/xclip"@, xclip_args, x),
        cmd("/usr/bin/xclip"@, xclip_args, x),
        cmd("xsel"@, xsel_args, x),
        cmd("/app/bin/xsel"@, xsel_args, x),
        cmd("/usr/bin/xsel"@, xsel_args, x),
    ] + if in_flatpak {
        seq![cmd("flatpak-spawn"@, seq!["--host"@, "wl-copy"@], seq![])]
    } else {
        seq![]
    }
}

/// The helpers that read the clipboard, in the order they are tried:
/// wl-paste, xclip, xsel, and inside Flatpak wl-paste on the host.
pub open spec fn paste_plan(s: SessionModel, in_flatpak: bool) -> Seq<CommandModel> {
    let w = wayland_env(s);
    let x = x11_env(s);
    let wl_args = seq!["-n"@, "--no-newline"@];
    let xclip_args = seq!["-selection"@, "clipboard"@, "-o"@];
    let xsel_args = seq!["-ob"@];
    seq![
        cmd("wl-paste"@, wl_args, w),
        cmd("/app/bin/wl-paste"@, wl_args, w),
        cmd("/usr/bin/wl-paste"@, wl_args, w),
        cmd("/usr/local/bin/wl-paste"@, wl_args, w),
        cmd("xclip"@, xclip_args, x),
        cmd("/app/bin/xclip"@, xclip_args, x),
        cmd("/usr/bin/xclip"@, xclip_args, x),
        cmd("xsel"@, xsel_args, x),
        cmd("/app/bin/xsel"@, xsel_args, x),
        cmd("/usr/bin/xsel"@, xsel_args, x),
    ] + if in_flatpak {
        seq![cmd("flatpak-spawn"@, seq!["--host"@, "wl-paste"@, "-n"@, "--no-newline"@], seq![])]
    } else {
        seq![]
    }
}

/// The helpers the server's input handler tries to write the clipboard:
/// xclip, xsel, wl-copy, then xclip as the session user through sudo.
pub open spec fn server_copy_plan(s: SessionModel) -> Seq<CommandModel> {
    let x = x11_env(s);
    seq![
        cmd("xclip"@, seq!["-selection"@, "clipboard"@], x),
        cmd("xsel"@, seq!["-ib"@], x),
        cmd("wl-copy"@, seq![], seq![("XDG_RUNTIME_DIR"@, s.runtime_dir)]),
        cmd("sudo"@, sudo_args(s) + seq!["-selection"@, "clipboard"@], seq![]),
    ]
}

/// The helpers the server's input handler tries to read the clipboard.
pub open spec fn server_paste_plan(s: SessionModel) -> Seq<CommandModel> {
    let x = x11_env(s);
    seq![
        cmd("xclip"@, seq!["-selection"@, "clipboard"@, "-o"@], x),
        cmd("xsel"@, seq!["-ob"@], x),
        cmd("wl-paste"@, seq!["-n"@], seq![("XDG_RUNTIME_DIR"@, s.runtime_dir)]),
        cmd("sudo"@, sudo_args(s) + seq!["-selection"@, "clipboard"@, "-o"@], seq![]),
    ]
}

/// `sudo` arguments that run xclip as the session user on its display.
pub open spec fn sudo_args(s: SessionModel) -> Seq<Seq<char>> {
    seq![
        "-u"@,
        s.username,
        "env"@,
        "DISPLAY="@ + s.display,
        "XAUTHORITY="@ + s.xauthority,
        "xclip"@,
    ]
}

fn wayland_vars(s: &DesktopSession) -> (v: Vec<(String, String)>)
    ensures
        env_views(v@) == wayland_env(session_view(*s)),
{
    let v = vec![
        (String::from_str("XDG_RUNTIME_DIR"), s.runtime_dir.clone()),
        (String::from_str("WAYLAND_DISPLAY"), s.wayland_display.clone()),
    ];
    assert(env_views(v@) =~= wayland_env(session_view(*s)));
    v
}

fn x11_vars(s: &DesktopSession) -> (v: Vec<(String, String)>)
    ensures
        env_views(v@) == x11_env(session_view(*s)),
{
    let v = vec![
        (String::from_str("DISPLAY"), s.display.clone()),
        (String::from_str("XAUTHORITY"), s.xauthority.clone()),
    ];
    assert(env_views(v@) =~= x11_env(session_view(*s)));
    v
}

fn runtime_var(s: &DesktopSession) -> (v: Vec<(String, String)>)
    ensures
        env_views(v@) == seq![("XDG_RUNTIME_DIR"@, session_view(*s).runtime_dir)],
{
    let v = vec![(String::from_str("XDG_RUNTIME_DIR"), s.runtime_dir.clone())];
    assert(env_views(v@) =~= seq![("XDG_RUNTIME_DIR"@, session_view(*s).runtime_dir)]);
    v
}

fn no_vars() -> (v: Vec<(String, String)>)
    ensures
        env_views(v@) == Seq::<(Seq<char>, Seq<char>)>::empty(),
{
    let v: Vec<(String, String)> = Vec::new();
    assert(env_views(v@) =~= Seq::<(Seq<char>, Seq<char>)>::empty());
    v
}

fn str_args1(a: &str) -> (v: Vec<String>)
    ensures
        string_views(v@) == seq![a@],
{
    let mut v: Vec<String> = Vec::new();
    push_str(&mut v, a);
    assert(string_views(v@) =~= seq![a@]);
    v
}

fn str_args2(a: &str, b: &str) -> (v: Vec<String>)
    ensures
        string_views(v@) == seq![a@, b@],
{
    let mut v = str_args1(a);
    push_str(&mut v, b);
    assert(string_views(v@) =~= seq![a@, b@]);
    v
}

fn str_args3(a: &str, b: &str, c: &str) -> (v: Vec<String>)
    ensures
        string_views(v@) == seq![a@, b@, c@],
{
    let mut v = str_args2(a, b);
    push_str(&mut v, c);
    assert(string_views(v@) =~= seq![a@, b@, c@]);
    v
}

fn str_args4(a: &str, b: &str, c: &str, d: &str) -> (v: Vec<String>)
    ensures
        string_views(v@) == seq![a@, b@, c@, d@],
{
    let mut v = str_args3(a, b, c);
    push_str(&mut v, d);
    assert(string_views(v@) =~= seq![a@, b@, c@, d@]);
    v
}

fn no_args() -> (v: Vec<String>)
    ensures
        string_views(v@) == Seq::<Seq<char>>::empty(),
{
    let v: Vec<String> = Vec::new();
    assert(string_views(v@) =~= Seq::<Seq<char>>::empty());
    v
}

fn push_command(
    plan: &mut Vec<ClipboardCommand>,
    program: &str,
    args: Vec<String>,
    envs: Vec<(String, String)>,
)
    ensures
        plan_view(final(plan)@) == plan_view(old(plan)@).push(
            cmd(program@, string_views(args@), env_views(envs@)),
        ),
{
    plan.push(ClipboardCommand { program: String::from_str(program), args, envs });
    assert(plan_view(plan@) =~= plan_view(old(plan)@).push(
        cmd(program@, string_views(args@), env_views(envs@)),
    ));
}

/// The helpers that write the clipboard of `s`, in order (see `copy_plan`).
pub fn copy_commands(s: &DesktopSession, in_flatpak: bool) -> (plan: Vec<ClipboardCommand>)
    ensures
        plan_view(plan@) == copy_plan(session_view(*s), in_flatpak),
{
    let mut plan: Vec<ClipboardCommand> = Vec::new();
    push_command(&mut plan, "wl-copy", no_args(), wayland_vars(s));
    push_command(&mut plan, "/app/bin/wl-copy", no_args(), wayland_vars(s));
    push_command(&mut plan, "/usr/bin/wl-copy", no_args(), wayland_vars(s));
    push_command(&mut plan, "/usr/local/bin/wl-copy", no_args(), wayland_vars(s));
    push_command(&mut plan, "xclip", str_args2("-selection", "clipboard"), x11_vars(s));
    push_command(&mut plan, "/app/bin/xclip", str_args2("-selection", "clipboard"), x11_vars(s));
    push_command(&mut plan, "/usr/bin/xclip", str_args2("-selection", "clipboard"), x11_vars(s));
    push_command(&mut plan, "xsel", str_args1("-ib"), x11_vars(s));
    push_command(&mut plan, "/app/bin/xsel", str_args1("-ib"), x11_vars(s));
    push_command(&mut plan, "/usr/bin/xsel", str_args1("-ib"), x11_vars(s));
    if in_flatpak {
        push_command(&mut plan, "flatpak-spawn", str_args2("--host", "wl-copy"), no_vars());
    }
    assert(plan_view(plan@) =~= copy_plan(session_view(*s), in_flatpak));
    plan
}

/// The helpers that read the clipboard of `s`, in order (see `paste_plan`).
pub fn paste_commands(s: &DesktopSession, in_flatpak: bool) -> (plan: Vec<ClipboardCommand>)
    ensures
        plan_view(plan@) == paste_plan(session_view(*s), in_flatpak),
{
    let mut plan: Vec<ClipboardCommand> = Vec::new();
    push_command(&mut plan, "wl-paste", str_args2("-n", "--no-newline"), wayland_vars(s));
    push_command(&mut plan, "/app/bin/wl-paste", str_args2("-n", "--no-newline"), wayland_vars(s));
    push_command(&mut plan, "/usr/bin/wl-paste", str_args2("-n", "--no-newline"), wayland_vars(s));
    push_command(
        &mut plan,
        "/usr/local/bin/wl-paste",
        str_args2("-n", "--no-newline"),
        wayland_vars(s),
    );
    push_command(&mut plan, "xclip", str_args3("-selection", "clipboard", "-o"), x11_vars(s));
    push_command(
        &mut plan,
        "/app/bin/xclip",
        str_args3("-selection", "clipboard", "-o"),
        x11_vars(s),
    );
    push_command(
        &mut plan,
        "/usr/bin/xclip",
        str_args3("-selection", "clipboard", "-o"),
        x11_vars(s),
    );
    push_command(&mut plan, "xsel", str_args1("-ob"), x11_vars(s));
    push_command(&mut plan, "/app/bin/xsel", str_args1("-ob"), x11_vars(s));
    push_command(&mut plan, "/usr/bin/xsel", str_args1("-ob"), x11_vars(s));
    if in_flatpak {
        push_command(
            &mut plan,
            "flatpak-spawn",
            str_args4("--host", "wl-paste", "-n", "--no-newline"),
            no_vars(),
        );
    }
    assert(plan_view(plan@) =~= paste_plan(session_view(*s), in_flatpak));
    plan
}

fn sudo_xclip_args(s: &DesktopSession, read: bool) -> (v: Vec<String>)
    ensures
        string_views(v@) == sudo_args(session_view(*s)) + if read {
            seq!["-selection"@, "clipboard"@, "-o"@]
        } else {
            seq!["-selection"@, "clipboard"@]
        },
{
    let mut v: Vec<String> = Vec::new();
    push_str(&mut v, "-u");
    push_str(&mut v, s.username.as_str());
    push_str(&mut v, "env");
    push_string(&mut v, String::from_str("DISPLAY=").concat(s.display.as_str()));
    push_string(&mut v, String::from_str("XAUTHORITY=").concat(s.xauthority.as_str()));
    push_str(&mut v, "xclip");
    push_str(&mut v, "-selection");
    push_str(&mut v, "clipboard");
    if read {
        push_str(&mut v, "-o");
    }
    assert(string_views(v@) =~= sudo_args(session_view(*s)) + if read {
        seq!["-selection"@, "clipboard"@, "-o"@]
    } else {
        seq!["-selection"@, "clipboard"@]
    });
    v
}

/// The helpers the server's input handler tries to write the clipboard of
/// `s` (see `server_copy_plan`).
pub fn server_copy_commands(s: &DesktopSession) -> (plan: Vec<ClipboardCommand>)
    ensures
        plan_view(plan@) == server_copy_plan(session_view(*s)),
{
    let mut plan: Vec<ClipboardCommand> = Vec::new();
    push_command(&mut plan, "xclip", str_args2("-selection", "clipboard"), x11_vars(s));
    push_command(&mut plan, "xsel", str_args1("-ib"), x11_vars(s));
    push_command(&mut plan, "wl-copy", no_args(), runtime_var(s));
    push_command(&mut plan, "sudo", sudo_xclip_args(s, false), no_vars());
    assert(plan_view(plan@) =~= server_copy_plan(session_view(*s)));
    plan
}

/// The helpers the server's input handler tries to read the clipboard of
/// `s` (see `server_paste_plan`).
pub fn server_paste_commands(s: &DesktopSession) -> (plan: Vec<ClipboardCommand>)
    ensures
        plan_view(plan@) == server_paste_plan(session_view(*s)),
{
    let mut plan: Vec<ClipboardCommand> = Vec::new();
    push_command(&mut plan, "xclip", str_args3("-selection", "clipboard", "-o"), x11_vars(s));
    push_command(&mut plan, "xsel", str_args1("-ob"), x11_vars(s));
    push_command(&mut plan, "wl-paste", str_args1("-n"), runtime_var(s));
    push_command(&mut plan, "sudo", sudo_xclip_args(s, true), no_vars());
    assert(plan_view(plan@) =~= server_paste_plan(session_view(*s)));
    plan
}

/// Where working through a plan of helpers stands.
#[derive(Debug, Clone, Copy, PartialEq, Eq, Structural)]
pub enum HelperStep {
    /// Run the helper at this index of the plan.
    Try(usize),
    /// A helper succeeded: the clipboard was written or read.
    Done,
    /// Every helper failed.
    GiveUp,
}

/// The first step of a plan of `plan_len` helpers: the first helper, or
/// giving up when there is none.
pub fn first_helper(plan_len: usize) -> (s: HelperStep)
    ensures
        s == if plan_len > 0 {
            HelperStep::Try(0)
        } else {
            HelperStep::GiveUp
        },
{
    if plan_len > 0 {
        HelperStep::Try(0)
    } else {
        HelperStep::GiveUp
    }
}

/// The step after helper `tried` of a plan of `plan_len` ran: done if it
/// succeeded, else the next helper, else giving up.
pub fn next_helper(tried: usize, succeeded: bool, plan_len: usize) -> (s: HelperStep)
    requires
        tried < plan_len,
    ensures
        s == if succeeded {
            HelperStep::Done
        } else if tried + 1 < plan_len {
            HelperStep::Try((tried + 1) as usize)
        } else {
            HelperStep::GiveUp
        },
{
    if succeeded {
        HelperStep::Done
    } else if tried + 1 < plan_len {
        HelperStep::Try(tried + 1)
    } else {
        HelperStep::GiveUp
    }
}

/// The arguments pick the CLIPBOARD selection: xclip's `-selection
/// clipboard` pair, or xsel's `-b` flag, given as `-ib` (write) or `-ob`
/// (read).
pub open spec fn picks_clipboard(args: Seq<Seq<char>>) -> bool {
    ||| exists|i: int|
        0 <= i && i + 1 < args.len() && #[trigger] args[i] == "-selection"@ && args[i + 1]
            == "clipboard"@
    ||| args.contains("-ib"@)
    ||| args.contains("-ob"@)
}

/// `program` is the Wayland helper `tool`, by name or by a path ending in
/// `/tool`.
pub open spec fn is_tool(program: Seq<char>, tool: Seq<char>) -> bool {
    ||| program == tool
    ||| program.len() > tool.len() && program.subrange(program.len() - tool.len(), program.len() as int)
        == tool && program[program.len() - tool.len() - 1] == '/'
}

/// The command runs a Wayland helper (wl-copy or wl-paste), directly or
/// on the Flatpak host; these only know the clipboard unless asked for
/// the primary selection.
pub open spec fn runs_wayland_helper(c: CommandModel) -> bool {
    ||| is_tool(c.program, "wl-copy"@)
    ||| is_tool(c.program, "wl-paste"@)
    ||| (c.program == "flatpak-spawn"@ && (c.args.contains("wl-copy"@) || c.args.contains("wl-paste"@)))
}

/// Every helper of `plan` works on the CLIPBOARD selection, the one that
/// Ctrl+C and Ctrl+V use: the X11 helpers (xclip, xsel, xclip through
/// sudo) are told so, and the Wayland helpers are not asked for the primary
/// selection.
pub open spec fn plan_uses_clipboard(plan: Seq<CommandModel>) -> bool {
    forall|k: int|
        0 <= k < plan.len() ==> {
            &&& picks_clipboard(#[trigger] plan[k].args) || runs_wayland_helper(plan[k])
            &&& runs_wayland_helper(plan[k]) ==> !plan[k].args.contains("--primary"@)
                && !plan[k].args.contains("-p"@)
        }
}

proof fn lemma_pair_picks_clipboard(args: Seq<Seq<char>>, i: int)
    requires
        0 <= i && i + 1 < args.len(),
        args[i] == "-selection"@,
        args[i + 1] == "clipboard"@,
    ensures
        picks_clipboard(args),
{
}

/// Law: every helper that the clients and the server try, to write or to
/// read the clipboard, works on the CLIPBOARD selection (never PRIMARY),
/// whatever the session and whether or not the program runs in Flatpak.
pub proof fn law_helpers_use_clipboard_selection(s: SessionModel, in_flatpak: bool)
    ensures
        plan_uses_clipboard(copy_plan(s, in_flatpak)),
        plan_uses_clipboard(paste_plan(s, in_flatpak)),
        plan_uses_clipboard(server_copy_plan(s)),
        plan_uses_clipboard(server_paste_plan(s)),
{
    let xc = seq!["-selection"@, "clipboard"@];
    let xp = seq!["-selection"@, "clipboard"@, "-o"@];
    lemma_pair_picks_clipboard(xc, 0);
    lemma_pair_picks_clipboard(xp, 0);
    assert(seq!["-ib"@][0] == "-ib"@);
    assert(seq!["-ob"@][0] == "-ob"@);
    let sc = sudo_args(s) + xc;
    let sp = sudo_args(s) + xp;
    lemma_pair_picks_clipboard(sc, sudo_args(s).len() as int);
    lemma_pair_picks_clipboard(sp, sudo_args(s).len() as int);
    reveal_strlit("-n");
    reveal_strlit("--no-newline");
    reveal_strlit("--primary");
    reveal_strlit("-p");
    reveal_strlit("--host");
    reveal_strlit("wl-copy");
    reveal_strlit("wl-paste");
    reveal_strlit("/app/bin/wl-copy");
    reveal_strlit("/usr/bin/wl-copy");
    reveal_strlit("/usr/local/bin/wl-copy");
    reveal_strlit("/app/bin/wl-paste");
    reveal_strlit("/usr/bin/wl-paste");
    reveal_strlit("/usr/local/bin/wl-paste");
    assert("--primary"@.len() == 9 && "-p"@.len() == 2 && "-n"@.len() == 2);
    assert("--no-newline"@.len() == 12 && "--host"@.len() == 6 && "wl-copy"@.len() == 7);
    assert("wl-paste"@.len() == 8);
    assert("-n"@[1] == 'n' && "-p"@[1] == 'p');
    let wl = seq!["-n"@, "--no-newline"@];
    assert(!wl.contains("--primary"@)) by {
        assert(wl[0] != "--primary"@ && wl[1] != "--primary"@);
    }
    assert(!wl.contains("-p"@)) by {
        assert(wl[0] != "-p"@ && wl[1] != "-p"@);
    }
    let e = Seq::<Seq<char>>::empty();
    assert(!e.contains("--primary"@) && !e.contains("-p"@));
    let n1 = seq!["-n"@];
    assert(!n1.contains("--primary"@) && !n1.contains("-p"@)) by {
        assert(n1[0] != "--primary"@ && n1[0] != "-p"@);
    }
    let fc = seq!["--host"@, "wl-copy"@];
    assert(fc[1] == "wl-copy"@);
    assert(!fc.contains("--primary"@) && !fc.contains("-p"@)) by {
        assert(fc[0] != "--primary"@ && fc[1] != "--primary"@ && fc[0] != "-p"@ && fc[1] != "-p"@);
    }
    let fp = seq!["--host"@, "wl-paste"@, "-n"@, "--no-newline"@];
    assert(fp[1] == "wl-paste"@);
    assert(!fp.contains("--primary"@) && !fp.contains("-p"@)) by {
        assert(fp[0] != "--primary"@ && fp[1] != "--primary"@ && fp[2] != "--primary"@ && fp[3]
            != "--primary"@);
        assert(fp[0] != "-p"@ && fp[1] != "-p"@ && fp[2] != "-p"@ && fp[3] != "-p"@);
    }
    assert("/app/bin/wl-copy"@.subrange(9, 16) =~= "wl-copy"@);
    assert("/app/bin/wl-copy"@[8] == '/' && "/usr/bin/wl-copy"@[8] == '/');
    assert("/usr/local/bin/wl-copy"@[14] == '/' && "/usr/local/bin/wl-paste"@[14] == '/');
    assert("/app/bin/wl-paste"@[8] == '/' && "/usr/bin/wl-paste"@[8] == '/');
    assert("/usr/bin/wl-copy"@.subrange(9, 16) =~= "wl-copy"@);
    assert("/usr/local/bin/wl-copy"@.subrange(15, 22) =~= "wl-copy"@);
    assert("/app/bin/wl-paste"@.subrange(9, 17) =~= "wl-paste"@);
    assert("/usr/bin/wl-paste"@.subrange(9, 17) =~= "wl-paste"@);
    assert("/usr/local/bin/wl-paste"@.subrange(15, 23) =~= "wl-paste"@);
    assert(is_tool("/app/bin/wl-copy"@, "wl-copy"@) && is_tool("/usr/bin/wl-copy"@, "wl-copy"@)
        && is_tool("/usr/local/bin/wl-copy"@, "wl-copy"@));
    assert(is_tool("/app/bin/wl-paste"@, "wl-paste"@) && is_tool("/usr/bin/wl-paste"@, "wl-paste"@)
        && is_tool("/usr/local/bin/wl-paste"@, "wl-paste"@));
    reveal_strlit("-selection");
    reveal_strlit("clipboard");
    reveal_strlit("-ib");
    reveal_strlit("-ob");
    reveal_strlit("-o");
    assert("-selection"@[0] == '-' && "-selection"@[1] == 's' && "-selection"@.len() == 10);
    assert("clipboard"@[0] == 'c' && "-ib"@.len() == 3 && "-ob"@.len() == 3 && "-o"@[1] == 'o');
    assert(!xc.contains("--primary"@) && !xc.contains("-p"@)) by {
        assert(xc[0] != "--primary"@ && xc[1] != "--primary"@ && xc[0] != "-p"@ && xc[1] != "-p"@);
    }
    assert(!xp.contains("--primary"@) && !xp.contains("-p"@)) by {
        assert(xp[0] != "--primary"@ && xp[1] != "--primary"@ && xp[2] != "--primary"@);
        assert(xp[0] != "-p"@ && xp[1] != "-p"@ && xp[2] != "-p"@);
    }
    let ib = seq!["-ib"@];
    let ob = seq!["-ob"@];
    assert(!ib.contains("--primary"@) && !ib.contains("-p"@)) by {
        assert(ib[0] != "--primary"@ && ib[0] != "-p"@);
    }
    assert(!ob.contains("--primary"@) && !ob.contains("-p"@)) by {
        assert(ob[0] != "--primary"@ && ob[0] != "-p"@);
    }
    let cp = copy_plan(s, in_flatpak);
    assert forall|k: int| 0 <= k < cp.len() implies {
        &&& picks_clipboard(#[trigger] cp[k].args) || runs_wayland_helper(cp[k])
        &&& runs_wayland_helper(cp[k]) ==> !cp[k].args.contains("--primary"@) && !cp[k].args.contains(
            "-p"@,
        )
    } by {
        if k < 4 {
            assert(runs_wayland_helper(cp[k]));
            assert(cp[k].args =~= e);
        } else if k < 7 {
            assert(cp[k].args == xc);
        } else if k < 10 {
            assert(cp[k].args == seq!["-ib"@]);
        } else {
            assert(cp[k].program == "flatpak-spawn"@ && cp[k].args == fc);
        }
    }
    let pp = paste_plan(s, in_flatpak);
    assert forall|k: int| 0 <= k < pp.len() implies {
        &&& picks_clipboard(#[trigger] pp[k].args) || runs_wayland_helper(pp[k])
        &&& runs_wayland_helper(pp[k]) ==> !pp[k].args.contains("--primary"@) && !pp[k].args.contains(
            "-p"@,
        )
    } by {
        if k < 4 {
            assert(runs_wayland_helper(pp[k]));
            assert(pp[k].args == wl);
        } else if k < 7 {
            assert(pp[k].args == xp);
        } else if k < 10 {
            assert(pp[k].args == seq!["-ob"@]);
        } else {
            assert(pp[k].program == "flatpak-spawn"@ && pp[k].args == fp);
        }
    }
    reveal_strlit("sudo");
    reveal_strlit("flatpak-spawn");
    assert("sudo"@.len() == 4 && "flatpak-spawn"@.len() == 13);
    let sudo = cmd("sudo"@, sc, seq![]);
    assert(!runs_wayland_helper(sudo));
    assert(!runs_wayland_helper(cmd("sudo"@, sp, seq![])));
    let scp = server_copy_plan(s);
    assert forall|k: int| 0 <= k < scp.len() implies {
        &&& picks_clipboard(#[trigger] scp[k].args) || runs_wayland_helper(scp[k])
        &&& runs_wayland_helper(scp[k]) ==> !scp[k].args.contains("--primary"@)
            && !scp[k].args.contains("-p"@)
    } by {
        if k == 0 {
            assert(scp[k].args == xc);
        } else if k == 1 {
            assert(scp[k].args == ib);
        } else if k == 2 {
            assert(scp[k].args =~= e);
        } else {
            assert(scp[k] == sudo);
        }
    }
    let spp = server_paste_plan(s);
    assert forall|k: int| 0 <= k < spp.len() implies {
        &&& picks_clipboard(#[trigger] spp[k].args) || runs_wayland_helper(spp[k])
        &&& runs_wayland_helper(spp[k]) ==> !spp[k].args.contains("--primary"@)
            && !spp[k].args.contains("-p"@)
    } by {
        if k == 0 {
            assert(spp[k].args == xp);
        } else if k == 1 {
            assert(spp[k].args == ob);
        } else if k == 2 {
            assert(spp[k].args == n1);
            assert(is_tool(spp[k].program, "wl-paste"@));
        } else {
            assert(spp[k] == cmd("sudo"@, sp, seq![]));
        }
    }
}

/// Law: where the server's clipboard helpers look. The session user is
/// `SUDO_USER`, else `USER`, else "servidor"; its X authority file is
/// `/root/.Xauthority` for root and `/home/<user>/.Xauthority` otherwise;
/// the display is `DISPLAY`, else `:0`; the runtime directory is
/// `/run/user/<uid>`. The X11 helpers that write and read the clipboard
/// (xclip, then xsel) run with exactly `DISPLAY` and `XAUTHORITY` set to
/// these, and wl-copy and wl-paste with `XDG_RUNTIME_DIR`.
pub proof fn law_server_helpers_reach_the_session(
    sudo_user: Option<Seq<char>>,
    user: Option<Seq<char>>,
    display: Option<Seq<char>>,
    uid: Seq<char>,
)
    ensures
        ({
            let s = server_session_spec(sudo_user, user, display, uid);
            let name = match sudo_user {
                Some(u) => u,
                None => match user {
                    Some(u) => u,
                    None => "servidor"@,
                },
            };
            let d = match display {
                Some(v) => v,
                None => ":0"@,
            };
            let xauth = if name == "root"@ {
                "/root/.Xauthority"@
            } else {
                "/home/"@ + name + "/.Xauthority"@
            };
            let x_env = seq![("DISPLAY"@, d), ("XAUTHORITY"@, xauth)];
            let run_env = seq![("XDG_RUNTIME_DIR"@, "/run/user/"@ + uid)];
            &&& s.username == name && s.display == d && s.xauthority == xauth
            &&& server_copy_plan(s)[0].envs == x_env && server_copy_plan(s)[1].envs == x_env
            &&& server_paste_plan(s)[0].envs == x_env && server_paste_plan(s)[1].envs == x_env
            &&& server_copy_plan(s)[2].envs == run_env && server_paste_plan(s)[2].envs == run_env
        }),
{
    reveal_strlit("/root");
    reveal_strlit("/.Xauthority");
    reveal_strlit("/root/.Xauthority");
    assert("/root"@ + "/.Xauthority"@ =~= "/root/.Xauthority"@);
    let name = session_user(sudo_user, user, "servidor"@);
    assert(("/home/"@ + name) + "/.Xauthority"@ == "/home/"@ + name + "/.Xauthority"@);
}

/// Law: where the clients' clipboard helpers look. The session user is
/// `SUDO_USER`, else `USER`, else "user"; each location is its variable
/// when set, else `/run/user/<uid>` for the runtime directory, `wayland-0`
/// for the Wayland display, `:0` for the X display and the user's
/// `.Xauthority` (under `/root` for root, `/home/<user>` otherwise). The
/// Wayland helpers run with exactly `XDG_RUNTIME_DIR` and `WAYLAND_DISPLAY`
/// set to these, the X11 helpers with exactly `DISPLAY` and `XAUTHORITY`,
/// and a helper on the Flatpak host with nothing added.
pub proof fn law_client_helpers_reach_the_session(env: ClipboardEnvironment, uid: Seq<char>, in_flatpak: bool)
    ensures
        ({
            let s = desktop_session_spec(env, uid);
            let name = match env.sudo_user {
                Some(u) => u@,
                None => match env.user {
                    Some(u) => u@,
                    None => "user"@,
                },
            };
            let home = if name == "root"@ {
                "/root"@
            } else {
                "/home/"@ + name
            };
            let w_env = seq![
                ("XDG_RUNTIME_DIR"@, match env.xdg_runtime_dir {
                    Some(v) => v@,
                    None => "/run/user/"@ + uid,
                }),
                ("WAYLAND_DISPLAY"@, match env.wayland_display {
                    Some(v) => v@,
                    None => "wayland-0"@,
                }),
            ];
            let x_env = seq![
                ("DISPLAY"@, match env.display {
                    Some(v) => v@,
                    None => ":0"@,
                }),
                ("XAUTHORITY"@, match env.xauthority {
                    Some(v) => v@,
                    None => home + "/.Xauthority"@,
                }),
            ];
            &&& s.username == name && s.home_dir == home
            &&& forall|k: int| 0 <= k < 4 ==> (#[trigger] copy_plan(s, in_flatpak)[k]).envs == w_env
                && paste_plan(s, in_flatpak)[k].envs == w_env
            &&& forall|k: int| 4 <= k < 10 ==> (#[trigger] copy_plan(s, in_flatpak)[k]).envs == x_env
                && paste_plan(s, in_flatpak)[k].envs == x_env
            &&& in_flatpak ==> copy_plan(s, in_flatpak)[10].envs.len() == 0 && paste_plan(s, in_flatpak)[10].envs.len() == 0
        }),
{
    let s = desktop_session_spec(env, uid);
    assert(copy_plan(s, in_flatpak).len() >= 10 && paste_plan(s, in_flatpak).len() >= 10);
}

} // verus!
