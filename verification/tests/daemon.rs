use claude_overlay::daemon::{
    ack_line, payload_to_state, state_from_payload, HookPayload, DYNAMIC_PORT_START, HOOK_PORT, WS_PORT,
};
use claude_overlay::input_spec::{Delivery, InputSpec, YesNoFormat};
use claude_overlay::store::{HookEvent, SourceType};

fn base_payload() -> HookPayload {
    HookPayload {
        event: "Notification".into(),
        cwd: "/x".into(),
        message: "".into(),
        source_type: "vscode".into(),
        source_basename: "x".into(),
        wt_session: "".into(),
        vscode_ipc_hook: "".into(),
        vscode_pid: "".into(),
        timestamp_ms: 0,
        notification_type: "".into(),
        shell_pid: 0,
        input_spec: None,
    }
}

#[test]
fn permission_prompt_becomes_numeric_yes_no() {
    let mut p = base_payload();
    p.notification_type = "permission_prompt".into();
    p.message = "The assistant needs your permission to use Bash".into();
    let s = payload_to_state(p);
    assert!(matches!(
        s.input,
        InputSpec::YesNo { format: YesNoFormat::Numeric, delivery: Delivery::Keystroke }
    ));
}

#[test]
fn explicit_input_spec_overrides_heuristics() {
    let mut p = base_payload();
    p.event = "AskQuestion".into();
    p.input_spec = Some(InputSpec::SingleChoice {
        options: vec![],
        allow_other: false,
        delivery: Delivery::BlockResponse,
    });
    let s = payload_to_state(p);
    assert!(matches!(s.input, InputSpec::SingleChoice { .. }));
}

#[test]
fn yn_marker_in_message_yields_yes_no_keystroke() {
    let mut p = base_payload();
    p.message = "Proceed? [y/N]".into();
    let s = payload_to_state(p);
    assert!(matches!(
        s.input,
        InputSpec::YesNo { format: YesNoFormat::YN, delivery: Delivery::Keystroke }
    ));
}

#[test]
fn plain_notification_yields_none() {
    let p = base_payload();
    let s = payload_to_state(p);
    assert!(matches!(s.input, InputSpec::NoInput));
}

#[test]
fn permission_prompt_wins_over_message_marker() {
    let mut p = base_payload();
    p.notification_type = "permission_prompt".into();
    p.message = "Proceed? [yes/no]".into();
    let s = payload_to_state(p);
    assert!(matches!(
        s.input,
        InputSpec::YesNo { format: YesNoFormat::Numeric, delivery: Delivery::Keystroke }
    ));
}

#[test]
fn payload_fields_are_mapped() {
    let mut p = base_payload();
    p.event = "Stop".into();
    p.source_type = "wt".into();
    p.wt_session = "sess-1".into();
    p.vscode_ipc_hook = "/sock/a".into();
    p.shell_pid = 4242;
    p.notification_type = "idle_prompt".into();
    p.message = "done".into();
    let s = payload_to_state(p);
    assert_eq!(s.id, "");
    assert_eq!(s.event, HookEvent::Stop);
    assert_eq!(s.source_type, SourceType::Wt);
    assert_eq!(s.source_basename, "x");
    assert_eq!(s.cwd, "/x");
    assert_eq!(s.message, "done");
    assert_eq!(s.wt_session.as_deref(), Some("sess-1"));
    assert_eq!(s.vscode_ipc_hook.as_deref(), Some("/sock/a"));
    assert_eq!(s.shell_pid, Some(4242));
    assert_eq!(s.notification_type.as_deref(), Some("idle_prompt"));
    assert_eq!(s.target_ext_id, None);
}

#[test]
fn unknown_event_and_source_fall_back() {
    let mut p = base_payload();
    p.event = "Something".into();
    p.source_type = "tmux".into();
    let s = payload_to_state(p);
    assert_eq!(s.event, HookEvent::Notification);
    assert_eq!(s.source_type, SourceType::Unknown);
    assert_eq!(s.shell_pid, None);
    assert_eq!(s.wt_session, None);
    assert_eq!(s.notification_type, None);
}

#[test]
fn detected_format_is_used_when_nothing_else_decides() {
    let p = base_payload();
    let s = state_from_payload(p, Some(YesNoFormat::YesNo));
    assert!(matches!(
        s.input,
        InputSpec::YesNo { format: YesNoFormat::YesNo, delivery: Delivery::Keystroke }
    ));
}

#[test]
fn ack_line_carries_the_id() {
    assert_eq!(ack_line("abc-1"), "{\"ok\":true,\"notif_id\":\"abc-1\"}\n");
}

#[test]
fn ports_stay_below_dynamic_range() {
    assert!(HOOK_PORT < DYNAMIC_PORT_START);
    assert!(WS_PORT < DYNAMIC_PORT_START);
    assert_ne!(HOOK_PORT, WS_PORT);
}
