use claude_overlay::registry::{ExtensionConnection, Registry, TerminalInfo};
use tokio::sync::mpsc;

fn fake_ext(id: &str, hook: &str) -> ExtensionConnection {
    let (tx, _rx) = mpsc::unbounded_channel();
    ExtensionConnection {
        ext_id: id.into(),
        vscode_ipc_hook: hook.into(),
        workspace_folders: vec![],
        vscode_pid: None,
        window_focused: false,
        terminals: vec![],
        last_focus_change: 0,
        tx,
    }
}

fn terminal(name: &str, cwd: &str, pid: Option<u32>) -> TerminalInfo {
    TerminalInfo { name: name.into(), cwd: Some(cwd.into()), pid }
}

#[test]
fn insert_and_len() {
    let mut r = Registry::new();
    r.insert(fake_ext("a", "/sock/a"));
    r.insert(fake_ext("b", "/sock/b"));
    assert_eq!(r.len(), 2);
}

#[test]
fn find_by_ipc_hook_exact() {
    let mut r = Registry::new();
    r.insert(fake_ext("a", "/sock/a"));
    r.insert(fake_ext("b", "/sock/b"));
    assert_eq!(r.find_by_ipc_hook("/sock/b").as_deref(), Some("b"));
    assert_eq!(r.find_by_ipc_hook("/sock/c"), None);
}

#[test]
fn find_by_cwd_single_match() {
    let mut r = Registry::new();
    let mut a = fake_ext("a", "/sock/a");
    a.terminals = vec![TerminalInfo { name: "t1".into(), cwd: Some("/sample".into()), pid: None }];
    r.insert(a);
    assert_eq!(r.find_by_terminal_cwd("/sample").as_deref(), Some("a"));
}

#[test]
fn find_by_cwd_prefers_most_recently_focused() {
    let mut r = Registry::new();
    let now: u64 = r.now_millis() + 10_000;
    let mut a = fake_ext("a", "/sock/a");
    a.terminals = vec![TerminalInfo { name: "t1".into(), cwd: Some("/sample".into()), pid: None }];
    a.last_focus_change = now - 10_000;
    r.insert(a);
    let mut b = fake_ext("b", "/sock/b");
    b.terminals = vec![TerminalInfo { name: "t2".into(), cwd: Some("/sample".into()), pid: None }];
    b.last_focus_change = now;
    r.insert(b);
    assert_eq!(r.find_by_terminal_cwd("/sample").as_deref(), Some("b"));
}

#[test]
fn update_terminals_replaces_list() {
    let mut r = Registry::new();
    r.insert(fake_ext("a", "/sock/a"));
    r.update_terminals("a", vec![
        TerminalInfo { name: "t1".into(), cwd: Some("/x".into()), pid: None },
    ]);
    assert_eq!(r.find_by_terminal_cwd("/x").as_deref(), Some("a"));
}

#[test]
fn remove_drops_from_registry() {
    let mut r = Registry::new();
    r.insert(fake_ext("a", "/sock/a"));
    r.remove("a");
    assert_eq!(r.len(), 0);
    assert_eq!(r.find_by_ipc_hook("/sock/a"), None);
}

#[test]
fn insert_with_same_id_replaces() {
    let mut r = Registry::new();
    r.insert(fake_ext("a", "/sock/old"));
    r.insert(fake_ext("a", "/sock/new"));
    assert_eq!(r.len(), 1);
    assert_eq!(r.find_by_ipc_hook("/sock/old"), None);
    assert_eq!(r.find_by_ipc_hook("/sock/new").as_deref(), Some("a"));
}

#[test]
fn update_terminals_drops_old_list() {
    let mut r = Registry::new();
    let mut a = fake_ext("a", "/sock/a");
    a.terminals = vec![terminal("t1", "/old", Some(7))];
    r.insert(a);
    r.update_terminals("a", vec![terminal("t2", "/new", Some(8))]);
    assert_eq!(r.find_by_terminal_cwd("/old"), None);
    assert_eq!(r.find_by_terminal_pid(7), None);
    assert_eq!(r.find_by_terminal_pid(8).as_deref(), Some("a"));
}

#[test]
fn update_of_unknown_extension_is_ignored() {
    let mut r = Registry::new();
    r.insert(fake_ext("a", "/sock/a"));
    r.update_terminals("zz", vec![terminal("t", "/z", None)]);
    r.update_focus("zz", true);
    assert_eq!(r.len(), 1);
    assert_eq!(r.find_by_terminal_cwd("/z"), None);
}

#[test]
fn focus_gain_makes_extension_preferred() {
    let mut r = Registry::new();
    let mut a = fake_ext("a", "/sock/a");
    a.terminals = vec![terminal("t1", "/shared", None)];
    a.last_focus_change = 5;
    r.insert(a);
    let mut b = fake_ext("b", "/sock/b");
    b.terminals = vec![terminal("t2", "/shared", None)];
    b.last_focus_change = 9;
    r.insert(b);
    assert_eq!(r.find_by_terminal_cwd("/shared").as_deref(), Some("b"));
    r.update_focus_at("a", true, 20);
    assert_eq!(r.find_by_terminal_cwd("/shared").as_deref(), Some("a"));
    r.update_focus_at("a", false, 30);
    assert_eq!(r.find_by_terminal_cwd("/shared").as_deref(), Some("a"));
}

#[test]
fn get_tx_reaches_the_extension_channel() {
    let mut r = Registry::new();
    let (tx, mut rx) = mpsc::unbounded_channel();
    let mut a = fake_ext("a", "/sock/a");
    a.tx = tx;
    r.insert(a);
    let sender = r.get_tx("a").unwrap();
    sender.send("ping".to_string()).unwrap();
    assert_eq!(rx.try_recv().unwrap(), "ping");
    assert!(r.get_tx("b").is_none());
}
