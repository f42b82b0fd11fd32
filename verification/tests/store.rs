use claude_overlay::input_spec::{Delivery, InputSpec, YesNoFormat};
use claude_overlay::store::{HookEvent, NotifState, NotifStore, SourceType};

fn sample(msg: &str) -> NotifState {
    NotifState {
        id: String::new(),
        event: HookEvent::Notification,
        source_type: SourceType::Wt,
        source_basename: "myproject".into(),
        cwd: "/home/user/code/myproject".into(),
        message: msg.into(),
        input: InputSpec::NoInput,
        target_ext_id: None,
        vscode_ipc_hook: None,
        wt_session: None,
        shell_pid: None,
        notification_type: None,
        created_at: 0,
    }
}

fn in_dir(msg: &str, cwd: &str) -> NotifState {
    let mut s = sample(msg);
    s.cwd = cwd.into();
    s
}

#[test]
fn add_assigns_id_and_returns_it() {
    let s = NotifStore::new();
    let mut s = s;
    let id = s.add(sample("hi"));
    assert!(!id.is_empty());
    assert_eq!(s.len(), 1);
}

#[test]
fn get_finds_by_id() {
    let mut s = NotifStore::new();
    let id = s.add(sample("hi"));
    assert_eq!(s.get(&id).unwrap().message, "hi");
}

#[test]
fn remove_returns_and_drops() {
    let mut s = NotifStore::new();
    let id = s.add(sample("hi"));
    assert!(s.remove(&id).is_some());
    assert_eq!(s.len(), 0);
    assert!(s.remove(&id).is_none());
}

#[test]
fn list_returns_all() {
    let mut s = NotifStore::new();
    s.add(sample("a"));
    s.add(sample("b"));
    assert_eq!(s.list().len(), 2);
}

#[test]
fn add_generates_unique_ids() {
    let mut s = NotifStore::new();
    let id1 = s.add(sample("a"));
    let id2 = s.add(sample("b"));
    assert_ne!(id1, id2);
}

#[test]
fn ids_are_hyphenated_v4_uuids() {
    let mut s = NotifStore::new();
    let id = s.add(sample("a"));
    assert_eq!(id.len(), 36);
    let bytes: Vec<char> = id.chars().collect();
    for (i, c) in bytes.iter().enumerate() {
        if i == 8 || i == 13 || i == 18 || i == 23 {
            assert_eq!(*c, '-');
        } else {
            assert!(c.is_ascii_hexdigit() && !c.is_ascii_uppercase());
        }
    }
    assert_eq!(bytes[14], '4');
}

#[test]
fn get_after_add_returns_stamped_row() {
    let mut s = NotifStore::new();
    let mut row = sample("ask");
    row.input = InputSpec::YesNo { format: YesNoFormat::YN, delivery: Delivery::Keystroke };
    row.id = "ignored".into();
    let id = s.add(row);
    let got = s.get(&id).unwrap();
    assert_eq!(got.id, id);
    assert_eq!(got.message, "ask");
    assert!(matches!(got.input, InputSpec::YesNo { format: YesNoFormat::YN, .. }));
    assert!(s.get("ignored").is_none());
}

#[test]
fn remove_keeps_order_of_the_rest() {
    let mut s = NotifStore::new();
    let a = s.add(sample("a"));
    let b = s.add(sample("b"));
    let c = s.add(sample("c"));
    let removed = s.remove(&b).unwrap();
    assert_eq!(removed.message, "b");
    let ids: Vec<String> = s.list().into_iter().map(|n| n.id).collect();
    assert_eq!(ids, vec![a, c]);
}

#[test]
fn remove_of_unknown_id_changes_nothing() {
    let mut s = NotifStore::new();
    s.add(sample("a"));
    assert!(s.remove("no-such-id").is_none());
    assert_eq!(s.len(), 1);
}

#[test]
fn dedup_replaces_rows_of_same_cwd() {
    let mut s = NotifStore::new();
    let a = s.add(in_dir("a", "/p"));
    let b = s.add(in_dir("b", "/q"));
    let c = s.add(in_dir("c", "/p"));
    let (d, removed) = s.add_dedup_by_cwd(in_dir("d", "/p"));
    assert_eq!(removed, vec![a, c]);
    let rows = s.list();
    assert_eq!(rows.len(), 2);
    assert_eq!(rows[0].id, b);
    assert_eq!(rows[1].id, d);
    assert_eq!(rows[1].message, "d");
}

#[test]
fn dedup_into_new_cwd_removes_nothing() {
    let mut s = NotifStore::new();
    s.add(in_dir("a", "/p"));
    let (_, removed) = s.add_dedup_by_cwd(in_dir("b", "/q"));
    assert!(removed.is_empty());
    assert_eq!(s.len(), 2);
}

#[test]
fn remove_of_just_added_row_restores_store() {
    let mut s = NotifStore::new();
    let a = s.add(sample("a"));
    let b = s.add(sample("b"));
    let c = s.add(sample("c"));
    let removed = s.remove(&c).unwrap();
    assert_eq!(removed.id, c);
    let ids: Vec<String> = s.list().into_iter().map(|n| n.id).collect();
    assert_eq!(ids, vec![a, b]);
}

#[test]
fn repeated_dedup_keeps_one_row_per_cwd() {
    let mut s = NotifStore::new();
    s.add_dedup_by_cwd(in_dir("a", "/p"));
    s.add_dedup_by_cwd(in_dir("b", "/q"));
    let (last, removed) = s.add_dedup_by_cwd(in_dir("c", "/p"));
    assert_eq!(removed.len(), 1);
    let rows = s.list();
    assert_eq!(rows.len(), 2);
    assert_eq!(rows.iter().filter(|n| n.cwd == "/p").count(), 1);
    assert_eq!(rows[1].id, last);
    assert_ne!(rows[0].id, rows[1].id);
}
