use claude_overlay::input_spec::{Choice, Delivery, InputSpec, YesNoFormat};
use claude_overlay::overlay::{
    answer_keys, derive_title_candidates, join_answers, plan_focus, popover_closes,
    select_title_candidates, AncestorName, PopoverData,
};
use claude_overlay::store::{HookEvent, NotifState, SourceType};

fn row(src: SourceType, input: InputSpec) -> NotifState {
    NotifState {
        id: "n1".into(),
        event: HookEvent::Notification,
        source_type: src,
        source_basename: "Proj".into(),
        cwd: "/home/x/proj".into(),
        message: "m".into(),
        input,
        target_ext_id: Some("e".into()),
        vscode_ipc_hook: None,
        wt_session: None,
        shell_pid: Some(12),
        notification_type: None,
        created_at: 0,
    }
}

#[test]
fn multi_answers_are_joined_with_comma() {
    assert_eq!(join_answers(&vec!["a".to_string(), "b".to_string(), "c".to_string()]), "a, b, c");
    assert_eq!(join_answers(&vec!["only".to_string()]), "only");
    assert_eq!(join_answers(&vec![]), "");
}

#[test]
fn keystroke_answers_follow_format() {
    let n = row(SourceType::Wt, InputSpec::YesNo { format: YesNoFormat::YesNo, delivery: Delivery::Keystroke });
    assert_eq!(answer_keys(&n, "yes"), Some("yes\n"));
    assert_eq!(answer_keys(&n, "no"), Some("no\n"));
    assert_eq!(answer_keys(&n, "anything"), Some("no\n"));
    let p = row(SourceType::Wt, InputSpec::YesNo { format: YesNoFormat::Numeric, delivery: Delivery::Keystroke });
    assert_eq!(answer_keys(&p, "no"), Some("\x1b"));
    let b = row(SourceType::Wt, InputSpec::YesNo { format: YesNoFormat::YN, delivery: Delivery::BlockResponse });
    assert_eq!(answer_keys(&b, "yes"), None);
    let t = row(SourceType::Wt, InputSpec::TextInput { placeholder: None, delivery: Delivery::Keystroke });
    assert_eq!(answer_keys(&t, "yes"), None);
}

#[test]
fn focus_plan_targets_source_window() {
    let v = row(SourceType::Vscode, InputSpec::NoInput);
    let plan = plan_focus(&v);
    let t = plan.terminal.unwrap();
    assert_eq!(t.ext_id, "e");
    assert_eq!(t.cwd, "/home/x/proj");
    assert_eq!(t.pid, 12);
    assert_eq!(plan.window_class, Some("Chrome_WidgetWin_1"));
    assert_eq!(plan.needle, "proj");
    let w = row(SourceType::Wt, InputSpec::NoInput);
    let plan = plan_focus(&w);
    assert!(plan.terminal.is_none());
    assert_eq!(plan.window_class, Some("CASCADIA_HOSTING_WINDOW_CLASS"));
    let u = row(SourceType::Unknown, InputSpec::NoInput);
    assert_eq!(plan_focus(&u).window_class, None);
}

#[test]
fn popover_closes_for_its_own_row() {
    let open = Some(PopoverData {
        notif_id: "n1".into(),
        items: vec![Choice { label: "A".into(), description: None }],
        multi_select: false,
        allow_other: true,
    });
    assert!(popover_closes(&open, "n1"));
    assert!(!popover_closes(&open, "n2"));
    assert!(!popover_closes(&None, "n1"));
}

#[test]
fn title_candidates_climb_to_workspace() {
    let c = derive_title_candidates("/home/x/proj/sub", "sub");
    assert_eq!(c, vec!["sub".to_string(), "proj".to_string()]);
}

#[test]
fn title_candidates_stop_at_generic_roots() {
    let c = derive_title_candidates("/mnt/c/Users/Bob/repos/App", "App");
    assert_eq!(c, vec!["app".to_string()]);
}

#[test]
fn title_candidates_lowercase_and_cap() {
    let c = derive_title_candidates("/a/B/c/D/e/F", "");
    assert_eq!(c, vec!["f".to_string(), "e".to_string(), "d".to_string(), "c".to_string()]);
}

#[test]
fn title_candidates_from_given_steps() {
    let steps = vec![
        AncestorName { name: Some("Sub".into()), parent_name: Some("Proj".into()) },
        AncestorName { name: None, parent_name: None },
        AncestorName { name: Some("Proj".into()), parent_name: Some("alice".into()) },
        AncestorName { name: Some("alice".into()), parent_name: Some("home".into()) },
        AncestorName { name: Some("home".into()), parent_name: None },
    ];
    let c = select_title_candidates("sub", &steps);
    assert_eq!(c, vec!["sub".to_string(), "proj".to_string()]);
}
