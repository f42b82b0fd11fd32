use claude_overlay::daemon::{
    foreground_check, foreground_dismissals, must_show, resolve_target, ExtMessage, ForegroundCheck,
    WsSession, INTERACTIVE_GRACE_MS,
};
use claude_overlay::input_spec::{Delivery, InputSpec, YesNoFormat};
use claude_overlay::registry::{ExtensionConnection, Registry, TerminalInfo};
use claude_overlay::store::{HookEvent, NotifState, SourceType};
use tokio::sync::mpsc;

fn notif(src: SourceType, basename: &str, cwd: &str) -> NotifState {
    NotifState {
        id: format!("id-{}", basename),
        event: HookEvent::Notification,
        source_type: src,
        source_basename: basename.into(),
        cwd: cwd.into(),
        message: "m".into(),
        input: InputSpec::NoInput,
        target_ext_id: None,
        vscode_ipc_hook: None,
        wt_session: None,
        shell_pid: None,
        notification_type: None,
        created_at: 0,
    }
}

fn ext(id: &str, hook: &str, terminals: Vec<TerminalInfo>, focus: u64) -> ExtensionConnection {
    let (tx, _rx) = mpsc::unbounded_channel();
    ExtensionConnection {
        ext_id: id.into(),
        vscode_ipc_hook: hook.into(),
        workspace_folders: vec![],
        vscode_pid: None,
        window_focused: false,
        terminals,
        last_focus_change: focus,
        tx,
    }
}

fn term(cwd: &str, pid: u32) -> TerminalInfo {
    TerminalInfo { name: "bash".into(), cwd: Some(cwd.into()), pid: Some(pid) }
}

fn registry() -> Registry {
    let mut r = Registry::new();
    r.insert(ext("a", "/sock/a", vec![term("/w", 10)], 1));
    r.insert(ext("b", "/sock/b", vec![term("/w", 20)], 2));
    r
}

#[test]
fn routing_prefers_ipc_hook() {
    let r = registry();
    let mut n = notif(SourceType::Vscode, "w", "/w");
    n.vscode_ipc_hook = Some("/sock/a".into());
    n.shell_pid = Some(20);
    resolve_target(&r, &mut n);
    assert_eq!(n.target_ext_id.as_deref(), Some("a"));
}

#[test]
fn routing_falls_back_to_shell_pid() {
    let r = registry();
    let mut n = notif(SourceType::Vscode, "w", "/w");
    n.vscode_ipc_hook = Some("/sock/unknown".into());
    n.shell_pid = Some(10);
    resolve_target(&r, &mut n);
    assert_eq!(n.target_ext_id.as_deref(), Some("a"));
}

#[test]
fn routing_falls_back_to_most_recent_cwd() {
    let r = registry();
    let mut n = notif(SourceType::Vscode, "w", "/w");
    resolve_target(&r, &mut n);
    assert_eq!(n.target_ext_id.as_deref(), Some("b"));
}

#[test]
fn routing_finds_nothing_for_unknown_cwd() {
    let r = registry();
    let mut n = notif(SourceType::Vscode, "w", "/elsewhere");
    resolve_target(&r, &mut n);
    assert_eq!(n.target_ext_id, None);
}

#[test]
fn routing_leaves_terminal_notifications_alone() {
    let r = registry();
    let mut n = notif(SourceType::Wt, "w", "/w");
    n.vscode_ipc_hook = Some("/sock/a".into());
    resolve_target(&r, &mut n);
    assert_eq!(n.target_ext_id, None);
}

#[test]
fn blocking_rows_must_show() {
    let mut n = notif(SourceType::Wt, "w", "/w");
    assert!(!must_show(&n));
    n.notification_type = Some("permission_prompt".into());
    assert!(must_show(&n));
    n.notification_type = Some("idle_prompt".into());
    assert!(!must_show(&n));
    n.input = InputSpec::TextInput { placeholder: None, delivery: Delivery::BlockResponse };
    assert!(must_show(&n));
}

#[test]
fn foreground_check_per_source() {
    let n = notif(SourceType::Wt, "MyProj", "/w");
    match foreground_check(&n) {
        ForegroundCheck::WtWindow { needle } => assert_eq!(needle, "myproj"),
        _ => panic!("wrong check"),
    }
    let mut v = notif(SourceType::Vscode, "p", "/w");
    assert!(matches!(foreground_check(&v), ForegroundCheck::Never));
    v.target_ext_id = Some("a".into());
    match foreground_check(&v) {
        ForegroundCheck::VscodeTerminal { ext_id, cwd, pid } => {
            assert_eq!(ext_id, "a");
            assert_eq!(cwd, "/w");
            assert_eq!(pid, 0);
        }
        _ => panic!("wrong check"),
    }
    assert!(matches!(foreground_check(&notif(SourceType::Unknown, "p", "/w")), ForegroundCheck::Never));
}

#[test]
fn session_registers_updates_and_unregisters() {
    let mut r = Registry::new();
    let (tx, _rx) = mpsc::unbounded_channel::<String>();
    let mut s = WsSession::new();
    let routed = s.handle_message(
        &mut r,
        ExtMessage::TerminalsUpdated { terminals: vec![term("/early", 1)] },
        &tx,
    );
    assert_eq!(routed, None);
    assert_eq!(r.len(), 0);
    s.handle_message(
        &mut r,
        ExtMessage::Register {
            ext_id: "e1".into(),
            vscode_ipc_hook: "/sock/e1".into(),
            workspace_folders: vec!["/w".into()],
            vscode_pid: Some(99),
            window_focused: true,
        },
        &tx,
    );
    assert_eq!(s.ext_id.as_deref(), Some("e1"));
    assert_eq!(r.find_by_ipc_hook("/sock/e1").as_deref(), Some("e1"));
    s.handle_message(&mut r, ExtMessage::TerminalsUpdated { terminals: vec![term("/w", 5)] }, &tx);
    assert_eq!(r.find_by_terminal_pid(5).as_deref(), Some("e1"));
    s.handle_message(&mut r, ExtMessage::WindowFocusChanged { focused: false }, &tx);
    let routed = s.handle_message(&mut r, ExtMessage::CommandResult { cmd_id: Some("c7".into()) }, &tx);
    assert_eq!(routed.as_deref(), Some("c7"));
    assert_eq!(s.handle_message(&mut r, ExtMessage::Other, &tx), None);
    s.close(&mut r);
    assert_eq!(r.len(), 0);
}

#[test]
fn watcher_dismisses_matching_rows_only() {
    let rows = vec![
        notif(SourceType::Wt, "Trading", "/t"),
        notif(SourceType::Vscode, "trading", "/t2"),
        notif(SourceType::Unknown, "trading", "/t3"),
        notif(SourceType::Wt, "other", "/o"),
    ];
    let ids = foreground_dismissals(&rows, "cascadia_hosting_window_class", "bash - TRADING", 5_000);
    assert_eq!(ids, vec!["id-Trading".to_string()]);
    let none = foreground_dismissals(&rows, "", "bash - TRADING", 5_000);
    assert!(none.is_empty());
}

#[test]
fn watcher_spares_young_interactive_rows() {
    let mut young = notif(SourceType::Vscode, "proj", "/p");
    young.input = InputSpec::YesNo { format: YesNoFormat::Numeric, delivery: Delivery::Keystroke };
    young.created_at = 1_000;
    let rows = vec![young];
    let fresh = foreground_dismissals(&rows, "Chrome_WidgetWin_1", "proj - Visual Studio Code", 1_000 + INTERACTIVE_GRACE_MS - 1);
    assert!(fresh.is_empty());
    let later = foreground_dismissals(&rows, "Chrome_WidgetWin_1", "proj - Visual Studio Code", 1_000 + INTERACTIVE_GRACE_MS);
    assert_eq!(later, vec!["id-proj".to_string()]);
}
