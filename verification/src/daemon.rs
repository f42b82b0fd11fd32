//! Turning hook payloads into notifications, and the daemon's routing decisions:
//! which extension a notification belongs to, whether it must be shown, how the
//! foreground check is made, and what each extension message does to the registry.

use vstd::prelude::*;
use vstd::string::StringExecFns;

use crate::heuristic::{detect_yn_prompt, yn_prompt_of};
use crate::input_spec::{Delivery, InputModel, InputSpec, YesNoFormat};
use crate::registry::{
    has_terminal_cwd, has_terminal_pid, with_focus, with_terminals, ExtView, ExtensionConnection,
    Registry, TerminalInfo,
};
use crate::focus_win32::{class_of, window_class_for};
use crate::store::{chars_of_all, lemma_take_succ, opt_chars, views_of, HookEvent, NotifState, NotifView, SourceType};
use crate::text::{
    contains, eq_ascii_nocase, eq_ignore_ascii_case, occurs_in, str_eq, to_lowercase,
    unicode_lowercase,
};

verus! {

/// Port of the hook listener (below the Windows dynamic port range).
pub const HOOK_PORT: u16 = 47842;

/// Port of the WebSocket listener for VS Code extensions.
pub const WS_PORT: u16 = 47843;

/// First port of the Windows dynamic port range, which the system may reserve at boot.
pub const DYNAMIC_PORT_START: u16 = 49152;

/// Both listening ports lie below the dynamic port range, so they stay bindable.
pub proof fn law_ports_below_dynamic_range()
    ensures
        HOOK_PORT < DYNAMIC_PORT_START,
        WS_PORT < DYNAMIC_PORT_START,
        HOOK_PORT != WS_PORT,
{
}

/// One payload sent by the hook script.
#[derive(Debug)]
pub struct HookPayload {
    pub event: String,
    pub cwd: String,
    pub message: String,
    pub source_type: String,
    pub source_basename: String,
    pub wt_session: String,
    pub vscode_ipc_hook: String,
    pub vscode_pid: String,
    pub timestamp_ms: u64,
    /// "permission_prompt", "idle_prompt", or empty.
    pub notification_type: String,
    /// Outermost shell PID under VS Code Remote-WSL; 0 means unknown.
    pub shell_pid: u32,
    /// Input specification produced by the hook; absent for `Stop` and plain notifications.
    pub input_spec: Option<InputSpec>,
}

/// The event named by the hook; anything unknown counts as a notification.
pub open spec fn event_named(s: Seq<char>) -> HookEvent {
    if s == "Stop"@ {
        HookEvent::Stop
    } else if s == "AskQuestion"@ {
        HookEvent::AskQuestion
    } else {
        HookEvent::Notification
    }
}

/// The source named by the hook; anything unknown is `Unknown`.
pub open spec fn source_named(s: Seq<char>) -> SourceType {
    if s == "vscode"@ {
        SourceType::Vscode
    } else if s == "wt"@ {
        SourceType::Wt
    } else {
        SourceType::Unknown
    }
}

fn parse_event(s: &str) -> (r: HookEvent)
    ensures
        r == event_named(s@),
{
    proof {
        reveal_strlit("Notification");
        reveal_strlit("Stop");
        reveal_strlit("AskQuestion");
        assert("Notification"@.len() == 12);
        assert("Stop"@.len() == 4);
        assert("AskQuestion"@.len() == 11);
    }
    if str_eq(s, "Notification") {
        HookEvent::Notification
    } else if str_eq(s, "Stop") {
        HookEvent::Stop
    } else if str_eq(s, "AskQuestion") {
        HookEvent::AskQuestion
    } else {
        HookEvent::Notification
    }
}

fn parse_source(s: &str) -> (r: SourceType)
    ensures
        r == source_named(s@),
{
    if str_eq(s, "vscode") {
        SourceType::Vscode
    } else if str_eq(s, "wt") {
        SourceType::Wt
    } else {
        SourceType::Unknown
    }
}

/// The source names map one to one: exactly "vscode" names VS Code, exactly "wt" names
/// Windows Terminal, and every other name is unknown.
pub proof fn law_source_names(s: Seq<char>)
    ensures
        (source_named(s) == SourceType::Vscode) <==> s == "vscode"@,
        (source_named(s) == SourceType::Wt) <==> s == "wt"@,
        (source_named(s) == SourceType::Unknown) <==> (s != "vscode"@ && s != "wt"@),
{
    reveal_strlit("vscode");
    reveal_strlit("wt");
    assert("vscode"@.len() == 6);
    assert("wt"@.len() == 2);
}

/// The event names map one to one: exactly "Stop" is a stop, exactly "AskQuestion" is a
/// question, and every other name is a notification.
pub proof fn law_event_names(s: Seq<char>)
    ensures
        (event_named(s) == HookEvent::Stop) <==> s == "Stop"@,
        (event_named(s) == HookEvent::AskQuestion) <==> s == "AskQuestion"@,
        (event_named(s) == HookEvent::Notification) <==> (s != "Stop"@ && s != "AskQuestion"@),
{
    reveal_strlit("Stop");
    reveal_strlit("AskQuestion");
    assert("Stop"@.len() == 4);
    assert("AskQuestion"@.len() == 11);
}

/// An empty string stands for an absent value.
pub open spec fn nonempty(s: Seq<char>) -> Option<Seq<char>> {
    if s.len() == 0 {
        None
    } else {
        Some(s)
    }
}

fn nonempty_string(s: String) -> (r: Option<String>)
    ensures
        opt_chars(r) == nonempty(s@),
{
    if s.as_str().is_empty() {
        None
    } else {
        Some(s)
    }
}

/// The notification type that asks for the assistant's permission picker.
pub open spec fn is_permission_prompt(nt: Option<Seq<char>>) -> bool {
    nt == Some("permission_prompt"@)
}

fn permission_prompt(nt: &Option<String>) -> (r: bool)
    ensures
        r == is_permission_prompt(opt_chars(*nt)),
{
    match nt {
        Some(t) => str_eq(t.as_str(), "permission_prompt"),
        None => false,
    }
}

/// The input a notification asks for. In order of priority: the specification the hook
/// sent; the numbered picker for a permission prompt; a yes/no prompt detected in the
/// message; nothing.
pub open spec fn resolved_input(
    given: Option<InputModel>,
    notification_type: Option<Seq<char>>,
    detected: Option<YesNoFormat>,
) -> InputModel {
    match given {
        Some(spec) => spec,
        None => if is_permission_prompt(notification_type) {
            InputModel::YesNo { format: YesNoFormat::Numeric, delivery: Delivery::Keystroke }
        } else {
            match detected {
                Some(f) => InputModel::YesNo { format: f, delivery: Delivery::Keystroke },
                None => InputModel::NoInput,
            }
        },
    }
}

/// The view of an optional input specification.
pub open spec fn opt_input(s: Option<InputSpec>) -> Option<InputModel> {
    match s {
        Some(v) => Some(v@),
        None => None,
    }
}

/// The notification built from payload `p`, given the prompt format detected in its
/// message. It has no identifier and no target yet; the store stamps its time.
pub open spec fn state_of(p: HookPayload, detected: Option<YesNoFormat>) -> NotifView {
    NotifView {
        id: Seq::empty(),
        event: event_named(p.event@),
        source_type: source_named(p.source_type@),
        source_basename: p.source_basename@,
        cwd: p.cwd@,
        message: p.message@,
        input: resolved_input(opt_input(p.input_spec), nonempty(p.notification_type@), detected),
        target_ext_id: None,
        vscode_ipc_hook: nonempty(p.vscode_ipc_hook@),
        wt_session: nonempty(p.wt_session@),
        shell_pid: if p.shell_pid == 0 {
            None
        } else {
            Some(p.shell_pid)
        },
        notification_type: nonempty(p.notification_type@),
        created_at: 0,
    }
}

/// Builds the notification for payload `p`, given the prompt format that detection found
/// in its message (used only when the hook sent no input specification and the
/// notification is not a permission prompt).
pub fn state_from_payload(p: HookPayload, detected: Option<YesNoFormat>) -> (r: NotifState)
    ensures
        r@ == state_of(p, detected),
{
    let ghost p0 = p;
    let shell_pid = if p.shell_pid == 0 {
        None
    } else {
        Some(p.shell_pid)
    };
    let notification_type = nonempty_string(p.notification_type);
    let is_permission = permission_prompt(&notification_type);
    let input = match p.input_spec {
        Some(spec) => spec,
        None => if is_permission {
            InputSpec::YesNo { format: YesNoFormat::Numeric, delivery: Delivery::Keystroke }
        } else {
            match detected {
                Some(format) => InputSpec::YesNo { format, delivery: Delivery::Keystroke },
                None => InputSpec::NoInput,
            }
        },
    };
    let event = parse_event(p.event.as_str());
    let source_type = parse_source(p.source_type.as_str());
    let r = NotifState {
        id: String::new(),
        event,
        source_type,
        source_basename: p.source_basename,
        cwd: p.cwd,
        message: p.message,
        input,
        target_ext_id: None,
        vscode_ipc_hook: nonempty_string(p.vscode_ipc_hook),
        wt_session: nonempty_string(p.wt_session),
        shell_pid,
        notification_type,
        created_at: 0,
    };
    proof {
        assert(r@ =~= state_of(p0, detected));
    }
    r
}

/// Whether detection of a yes/no prompt in the message decides the input of `p`.
pub open spec fn detection_applies(p: HookPayload) -> bool {
    p.input_spec is None && !is_permission_prompt(nonempty(p.notification_type@))
}

/// Builds the notification for a raw payload. Routing to an extension and the
/// foreground check happen in the daemon loop.
pub fn payload_to_state(p: HookPayload) -> (r: NotifState)
    ensures
        r@ == state_of(p, if detection_applies(p) { yn_prompt_of(p.message@) } else { None }),
{
    proof {
        reveal_strlit("permission_prompt");
    }
    let detect = p.input_spec.is_none() && !str_eq(p.notification_type.as_str(), "permission_prompt");
    let detected = if detect {
        detect_yn_prompt(p.message.as_str())
    } else {
        None
    };
    state_from_payload(p, detected)
}


/// Connection `k` is registered with IPC hook `hook`.
pub open spec fn hook_owner(m: Map<Seq<char>, ExtView>, hook: Seq<char>, k: Seq<char>) -> bool {
    m.contains_key(k) && m[k].vscode_ipc_hook == hook
}

/// Connection `k` has a terminal with process id `pid`.
pub open spec fn pid_owner(m: Map<Seq<char>, ExtView>, pid: u32, k: Seq<char>) -> bool {
    m.contains_key(k) && has_terminal_pid(m[k], pid)
}

/// Connection `k` has a terminal in `cwd`.
pub open spec fn cwd_holder(m: Map<Seq<char>, ExtView>, cwd: Seq<char>, k: Seq<char>) -> bool {
    m.contains_key(k) && has_terminal_cwd(m[k], cwd)
}

/// Connection `k` has a terminal in `cwd` and gained focus no earlier than any other
/// connection with such a terminal.
pub open spec fn cwd_owner(m: Map<Seq<char>, ExtView>, cwd: Seq<char>, k: Seq<char>) -> bool {
    &&& cwd_holder(m, cwd, k)
    &&& forall|k2: Seq<char>| #[trigger] cwd_holder(m, cwd, k2) ==> m[k2].last_focus_change <= m[k].last_focus_change
}

/// `t` is a target that routing may give a notification `v` from a VS Code terminal:
/// the connection with its IPC hook; else the target it already had; else a connection
/// with a terminal of its shell PID; else the most recently focused connection with a
/// terminal in its working directory; else none.
pub open spec fn vscode_target(m: Map<Seq<char>, ExtView>, v: NotifView, t: Option<Seq<char>>) -> bool {
    if v.vscode_ipc_hook is Some && exists|k: Seq<char>| hook_owner(m, v.vscode_ipc_hook->0, k) {
        t matches Some(k) && hook_owner(m, v.vscode_ipc_hook->0, k)
    } else if v.target_ext_id is Some {
        t == v.target_ext_id
    } else if v.shell_pid is Some && exists|k: Seq<char>| pid_owner(m, v.shell_pid->0, k) {
        t matches Some(k) && pid_owner(m, v.shell_pid->0, k)
    } else if exists|k: Seq<char>| cwd_holder(m, v.cwd, k) {
        t matches Some(k) && cwd_owner(m, v.cwd, k)
    } else {
        t is None
    }
}

/// `t` is a target that routing may give notification `v`; only VS Code notifications
/// are routed.
pub open spec fn routed_target(m: Map<Seq<char>, ExtView>, v: NotifView, t: Option<Seq<char>>) -> bool {
    if v.source_type == SourceType::Vscode {
        vscode_target(m, v, t)
    } else {
        t == v.target_ext_id
    }
}

/// Finds the extension to which a VS Code notification's commands go: exact IPC hook
/// first, then the terminal's shell PID, then the terminal's working directory.
pub fn resolve_target(registry: &Registry, state: &mut NotifState)
    ensures
        final(state)@ == (NotifView { target_ext_id: final(state)@.target_ext_id, ..old(state)@ }),
        routed_target(registry@, old(state)@, final(state)@.target_ext_id),
{
    let ghost m = registry@;
    let ghost v = state@;
    if state.source_type == SourceType::Vscode {
        match &state.vscode_ipc_hook {
            Some(hook) => {
                match registry.find_by_ipc_hook(hook.as_str()) {
                    Some(id) => {
                        state.target_ext_id = Some(id);
                        assert(hook_owner(m, v.vscode_ipc_hook->0, id@));
                        return;
                    },
                    None => {
                        assert(!exists|k: Seq<char>| hook_owner(m, v.vscode_ipc_hook->0, k));
                    },
                }
            },
            None => {},
        }
        if state.target_ext_id.is_some() {
            return;
        }
        match state.shell_pid {
            Some(pid) => {
                match registry.find_by_terminal_pid(pid) {
                    Some(id) => {
                        state.target_ext_id = Some(id);
                        assert(pid_owner(m, pid, id@));
                        return;
                    },
                    None => {
                        assert(!exists|k: Seq<char>| pid_owner(m, pid, k));
                    },
                }
            },
            None => {},
        }
        match registry.find_by_terminal_cwd(state.cwd.as_str()) {
            Some(id) => {
                state.target_ext_id = Some(id);
                assert(cwd_owner(m, v.cwd, id@));
            },
            None => {
                assert(!exists|k: Seq<char>| cwd_holder(m, v.cwd, k));
            },
        }
    }
}

/// When a VS Code notification without a target has an IPC hook and a shell PID that match
/// no connection (or has none), but some connection has a terminal in its working
/// directory, routing gives it a connection with a terminal there whose window gained
/// focus no earlier than that of any other such connection: the target is never left empty
/// while such a connection exists.
pub proof fn law_routing_falls_back_to_cwd(m: Map<Seq<char>, ExtView>, v: NotifView, t: Option<Seq<char>>)
    requires
        v.source_type == SourceType::Vscode,
        v.target_ext_id is None,
        forall|k: Seq<char>|
            #[trigger] m.contains_key(k) ==> !(v.vscode_ipc_hook == Some(m[k].vscode_ipc_hook)),
        forall|k: Seq<char>|
            #[trigger] m.contains_key(k) ==> !(v.shell_pid is Some && has_terminal_pid(m[k], v.shell_pid->0)),
        exists|k: Seq<char>| m.contains_key(k) && has_terminal_cwd(#[trigger] m[k], v.cwd),
        routed_target(m, v, t),
    ensures
        t is Some,
        m.contains_key(t->0),
        has_terminal_cwd(m[t->0], v.cwd),
        forall|k: Seq<char>|
            #[trigger] m.contains_key(k) && has_terminal_cwd(m[k], v.cwd) ==> m[k].last_focus_change
                <= m[t->0].last_focus_change,
{
    let w = choose|k: Seq<char>| m.contains_key(k) && has_terminal_cwd(#[trigger] m[k], v.cwd);
    assert(cwd_holder(m, v.cwd, w));
    if v.vscode_ipc_hook is Some {
        assert(!exists|k: Seq<char>| hook_owner(m, v.vscode_ipc_hook->0, k));
    }
    if v.shell_pid is Some {
        assert(!exists|k: Seq<char>| pid_owner(m, v.shell_pid->0, k));
    }
    let k0 = t->0;
    assert forall|k: Seq<char>|
        #[trigger] m.contains_key(k) && has_terminal_cwd(m[k], v.cwd) implies m[k].last_focus_change
        <= m[k0].last_focus_change by {
        assert(cwd_holder(m, v.cwd, k));
    }
}

/// Routing tries its sources in a fixed order. A notification from another source keeps
/// the target it came with. A VS Code notification whose IPC hook belongs to a connection
/// goes to a connection with that hook; failing that, one that already has a target keeps
/// it; failing that, one whose shell PID belongs to a terminal of a connection goes to a
/// connection with that terminal; and when neither its hook, its shell PID nor its working
/// directory is known to any connection, it gets no target.
pub proof fn law_routing_order(m: Map<Seq<char>, ExtView>, v: NotifView, t: Option<Seq<char>>)
    requires
        routed_target(m, v, t),
    ensures
        v.source_type != SourceType::Vscode ==> t == v.target_ext_id,
        v.source_type == SourceType::Vscode && v.vscode_ipc_hook is Some && (exists|k: Seq<char>|
            #[trigger] m.contains_key(k) && m[k].vscode_ipc_hook == v.vscode_ipc_hook->0) ==> {
            &&& t is Some
            &&& m.contains_key(t->0)
            &&& m[t->0].vscode_ipc_hook == v.vscode_ipc_hook->0
        },
        v.source_type == SourceType::Vscode && (forall|k: Seq<char>|
            #[trigger] m.contains_key(k) ==> Some(m[k].vscode_ipc_hook) != v.vscode_ipc_hook) && v.target_ext_id
            is Some ==> t == v.target_ext_id,
        v.source_type == SourceType::Vscode && (forall|k: Seq<char>|
            #[trigger] m.contains_key(k) ==> Some(m[k].vscode_ipc_hook) != v.vscode_ipc_hook) && v.target_ext_id
            is None && v.shell_pid is Some && (exists|k: Seq<char>|
            #[trigger] m.contains_key(k) && has_terminal_pid(m[k], v.shell_pid->0)) ==> {
            &&& t is Some
            &&& m.contains_key(t->0)
            &&& has_terminal_pid(m[t->0], v.shell_pid->0)
        },
        v.source_type == SourceType::Vscode && (forall|k: Seq<char>|
            #[trigger] m.contains_key(k) ==> Some(m[k].vscode_ipc_hook) != v.vscode_ipc_hook && !(v.shell_pid
            is Some && has_terminal_pid(m[k], v.shell_pid->0)) && !has_terminal_cwd(m[k], v.cwd)) && v.target_ext_id
            is None ==> t is None,
{
    if v.source_type == SourceType::Vscode {
        if v.vscode_ipc_hook is Some && (exists|k: Seq<char>|
            #[trigger] m.contains_key(k) && m[k].vscode_ipc_hook == v.vscode_ipc_hook->0) {
            let w = choose|k: Seq<char>| #[trigger] m.contains_key(k) && m[k].vscode_ipc_hook == v.vscode_ipc_hook->0;
            assert(hook_owner(m, v.vscode_ipc_hook->0, w));
        }
        if forall|k: Seq<char>| #[trigger] m.contains_key(k) ==> Some(m[k].vscode_ipc_hook) != v.vscode_ipc_hook {
            if v.vscode_ipc_hook is Some {
                assert(!exists|k: Seq<char>| hook_owner(m, v.vscode_ipc_hook->0, k));
            }
            if v.target_ext_id is None && v.shell_pid is Some && (exists|k: Seq<char>|
                #[trigger] m.contains_key(k) && has_terminal_pid(m[k], v.shell_pid->0)) {
                let w = choose|k: Seq<char>| #[trigger] m.contains_key(k) && has_terminal_pid(m[k], v.shell_pid->0);
                assert(pid_owner(m, v.shell_pid->0, w));
            }
        }
        if (forall|k: Seq<char>|
            #[trigger] m.contains_key(k) ==> Some(m[k].vscode_ipc_hook) != v.vscode_ipc_hook && !(v.shell_pid
            is Some && has_terminal_pid(m[k], v.shell_pid->0)) && !has_terminal_cwd(m[k], v.cwd)) && v.target_ext_id
            is None {
            if v.vscode_ipc_hook is Some {
                assert(!exists|k: Seq<char>| hook_owner(m, v.vscode_ipc_hook->0, k));
            }
            if v.shell_pid is Some {
                assert(!exists|k: Seq<char>| pid_owner(m, v.shell_pid->0, k));
            }
            assert(!exists|k: Seq<char>| cwd_holder(m, v.cwd, k));
        }
    }
}

/// The row must be shown even when its terminal is in the foreground: it asks for an
/// answer, or it is a permission prompt.
pub open spec fn must_show_view(v: NotifView) -> bool {
    !(v.input is NoInput) || is_permission_prompt(v.notification_type)
}

/// Whether the row must be shown even when its terminal is in the foreground.
pub fn must_show(state: &NotifState) -> (r: bool)
    ensures
        r == must_show_view(state@),
{
    state.input.needs_answer() || permission_prompt(&state.notification_type)
}

/// How to tell whether a notification's terminal is already in the foreground.
pub enum ForegroundCheck {
    /// Compare the foreground window with the Windows Terminal window whose title
    /// contains `needle`.
    WtWindow { needle: String },
    /// Ask extension `ext_id` whether its active terminal is the one in `cwd` with
    /// shell `pid` (0 when unknown).
    VscodeTerminal { ext_id: String, cwd: String, pid: u32 },
    /// The terminal cannot be found: treat it as not in the foreground.
    Never,
}

/// `c` is the foreground check for notification `v`: the title needle of a Windows
/// Terminal source, the question to the target extension of a VS Code source, and no
/// check otherwise.
pub open spec fn check_for(v: NotifView, c: ForegroundCheck) -> bool {
    match v.source_type {
        SourceType::Wt => c matches ForegroundCheck::WtWindow { needle } && needle@
            == unicode_lowercase(v.source_basename),
        SourceType::Vscode => match v.target_ext_id {
            Some(id) => c matches ForegroundCheck::VscodeTerminal { ext_id, cwd, pid } && ext_id@
                == id && cwd@ == v.cwd && pid == match v.shell_pid {
                Some(p) => p,
                None => 0u32,
            },
            None => c is Never,
        },
        SourceType::Unknown => c is Never,
    }
}

/// The foreground check for `state`.
pub fn foreground_check(state: &NotifState) -> (r: ForegroundCheck)
    ensures
        check_for(state@, r),
{
    match state.source_type {
        SourceType::Wt => ForegroundCheck::WtWindow {
            needle: to_lowercase(state.source_basename.as_str()),
        },
        SourceType::Vscode => match &state.target_ext_id {
            Some(id) => ForegroundCheck::VscodeTerminal {
                ext_id: id.clone(),
                cwd: state.cwd.clone(),
                pid: match state.shell_pid {
                    Some(p) => p,
                    None => 0,
                },
            },
            None => ForegroundCheck::Never,
        },
        SourceType::Unknown => ForegroundCheck::Never,
    }
}

/// The reply line for a notification that was added under `id`.
pub open spec fn ack_text(id: Seq<char>) -> Seq<char> {
    "{\"ok\":true,\"notif_id\":\""@ + id + "\"}\n"@
}

/// The reply line for a notification that was added under `id`.
pub fn ack_line(id: &str) -> (r: String)
    ensures
        r@ == ack_text(id@),
{
    let mut out = String::new();
    out.append("{\"ok\":true,\"notif_id\":\"");
    out.append(id);
    out.append("\"}\n");
    proof {
        assert(out@ =~= ack_text(id@));
    }
    out
}


/// A message from a VS Code extension, with the fields the daemon reads.
pub enum ExtMessage {
    /// The extension announces itself.
    Register {
        ext_id: String,
        vscode_ipc_hook: String,
        workspace_folders: Vec<String>,
        vscode_pid: Option<u32>,
        window_focused: bool,
    },
    /// The extension's list of terminals changed.
    TerminalsUpdated { terminals: Vec<TerminalInfo> },
    /// The extension's window gained or lost focus.
    WindowFocusChanged { focused: bool },
    /// The reply to a command; `cmd_id` is absent when the message carried none.
    CommandResult { cmd_id: Option<String> },
    /// Any other message.
    Other,
}

/// The connection that a registration creates, registered at time `t`.
pub open spec fn registered(
    ext_id: Seq<char>,
    hook: Seq<char>,
    folders: Seq<String>,
    pid: Option<u32>,
    focused: bool,
    t: u64,
) -> ExtView {
    ExtView {
        ext_id: ext_id,
        vscode_ipc_hook: hook,
        workspace_folders: folders,
        vscode_pid: pid,
        window_focused: focused,
        terminals: Seq::empty(),
        last_focus_change: t,
    }
}

/// The state of one extension's WebSocket session: the identifier it registered, if any.
pub struct WsSession {
    pub ext_id: Option<String>,
}

/// The registry and session after message `msg`, taking `t` as the time of a registration
/// or focus gain, with `cmd` the command reply to route: a registration (re)registers the
/// connection and binds the session to it; terminal and focus updates apply to the bound
/// connection (none before registration); a command reply is routed by its identifier.
pub open spec fn session_step(
    m: Map<Seq<char>, ExtView>,
    bound: Option<Seq<char>>,
    msg: ExtMessage,
    t: u64,
    m2: Map<Seq<char>, ExtView>,
    bound2: Option<Seq<char>>,
    cmd: Option<Seq<char>>,
) -> bool {
    match msg {
        ExtMessage::Register { ext_id, vscode_ipc_hook, workspace_folders, vscode_pid, window_focused } => {
            &&& m2 == m.insert(
                ext_id@,
                registered(ext_id@, vscode_ipc_hook@, workspace_folders@, vscode_pid, window_focused, t),
            )
            &&& bound2 == Some(ext_id@)
            &&& cmd is None
        },
        ExtMessage::TerminalsUpdated { terminals } => {
            &&& m2 == match bound {
                Some(id) => with_terminals(m, id, terminals@),
                None => m,
            }
            &&& bound2 == bound
            &&& cmd is None
        },
        ExtMessage::WindowFocusChanged { focused } => {
            &&& m2 == match bound {
                Some(id) => with_focus(m, id, focused, t),
                None => m,
            }
            &&& bound2 == bound
            &&& cmd is None
        },
        ExtMessage::CommandResult { cmd_id } => {
            &&& m2 == m
            &&& bound2 == bound
            &&& cmd == opt_chars(cmd_id)
        },
        ExtMessage::Other => m2 == m && bound2 == bound && cmd is None,
    }
}

impl WsSession {
    pub fn new() -> (r: Self)
        ensures
            r.ext_id is None,
    {
        WsSession { ext_id: None }
    }

    /// Applies message `msg` to the registry; `tx` is the channel to this session's
    /// socket. Returns the identifier of a command reply to route, if the message is one.
    pub fn handle_message(
        &mut self,
        registry: &mut Registry,
        msg: ExtMessage,
        tx: &tokio::sync::mpsc::UnboundedSender<String>,
    ) -> (r: Option<String>)
        ensures
            exists|t: u64|
                session_step(
                    old(registry)@,
                    opt_chars(old(self).ext_id),
                    msg,
                    t,
                    final(registry)@,
                    opt_chars(final(self).ext_id),
                    opt_chars(r),
                ),
    {
        let ghost m = registry@;
        let ghost msg0 = msg;
        match msg {
            ExtMessage::Register { ext_id, vscode_ipc_hook, workspace_folders, vscode_pid, window_focused } => {
                let now = registry.now_millis();
                let id = ext_id.clone();
                let conn = ExtensionConnection {
                    ext_id,
                    vscode_ipc_hook,
                    workspace_folders,
                    vscode_pid,
                    window_focused,
                    terminals: Vec::new(),
                    last_focus_change: now,
                    tx: crate::registry::clone_sender(tx),
                };
                registry.insert(conn);
                self.ext_id = Some(id);
                proof {
                    assert(session_step(m, opt_chars(old(self).ext_id), msg0, now, registry@,
                        opt_chars(self.ext_id), None));
                }
                None
            },
            ExtMessage::TerminalsUpdated { terminals } => {
                let ghost ts = terminals@;
                match &self.ext_id {
                    Some(id) => {
                        registry.update_terminals(id.as_str(), terminals);
                    },
                    None => {},
                }
                proof {
                    assert(session_step(m, opt_chars(old(self).ext_id), msg0, 0, registry@,
                        opt_chars(self.ext_id), None));
                }
                None
            },
            ExtMessage::WindowFocusChanged { focused } => {
                let now = registry.now_millis();
                match &self.ext_id {
                    Some(id) => {
                        registry.update_focus_at(id.as_str(), focused, now);
                    },
                    None => {},
                }
                proof {
                    assert(session_step(m, opt_chars(old(self).ext_id), msg0, now, registry@,
                        opt_chars(self.ext_id), None));
                }
                None
            },
            ExtMessage::CommandResult { cmd_id } => {
                proof {
                    assert(session_step(m, opt_chars(old(self).ext_id), msg0, 0, registry@,
                        opt_chars(self.ext_id), opt_chars(cmd_id)));
                }
                cmd_id
            },
            ExtMessage::Other => {
                proof {
                    assert(session_step(m, opt_chars(old(self).ext_id), msg0, 0, registry@,
                        opt_chars(self.ext_id), None));
                }
                None
            },
        }
    }

    /// When the socket closes: the connection this session registered leaves the registry.
    pub fn close(&self, registry: &mut Registry)
        ensures
            final(registry)@ == match self.ext_id {
                Some(id) => old(registry)@.remove(id@),
                None => old(registry)@,
            },
    {
        match &self.ext_id {
            Some(id) => registry.remove(id.as_str()),
            None => {},
        }
    }
}


/// An interactive row is not dismissed by the foreground watcher before it is this many
/// milliseconds old, so that it is seen at least briefly.
pub const INTERACTIVE_GRACE_MS: u64 = 800;

/// The foreground window's class is the window class of the source.
pub open spec fn source_window_class(src: SourceType, fg_class: Seq<char>) -> bool {
    match class_of(src) {
        Some(c) => eq_ascii_nocase(fg_class, c),
        None => false,
    }
}

/// Milliseconds from `since` to `now`, 0 if `now` is earlier.
pub open spec fn age(now: u64, since: u64) -> int {
    if now >= since {
        now - since
    } else {
        0
    }
}

/// The foreground window shows row `n`'s terminal (class of its source, title containing
/// its basename, both lower-cased) and the row is past the grace period of interactive rows.
pub open spec fn dismissable(n: NotifView, fg_class: Seq<char>, fg_title: Seq<char>, now: u64) -> bool {
    &&& source_window_class(n.source_type, fg_class)
    &&& occurs_in(unicode_lowercase(fg_title), unicode_lowercase(n.source_basename))
    &&& !(!(n.input is NoInput) && age(now, n.created_at) < INTERACTIVE_GRACE_MS)
}

/// The rows of `s` that the foreground window dismisses (none when there is no foreground
/// window, whose class is then empty).
pub open spec fn dismissed_rows(s: Seq<NotifView>, fg_class: Seq<char>, fg_title: Seq<char>, now: u64) -> Seq<
    NotifView,
> {
    if fg_class.len() == 0 {
        Seq::empty()
    } else {
        s.filter(|n: NotifView| dismissable(n, fg_class, fg_title, now))
    }
}

/// The identifiers of the rows of `s` that the foreground window dismisses, in order.
pub open spec fn dismissed_ids(s: Seq<NotifView>, fg_class: Seq<char>, fg_title: Seq<char>, now: u64) -> Seq<
    Seq<char>,
> {
    dismissed_rows(s, fg_class, fg_title, now).map_values(|n: NotifView| n.id)
}

/// Whether the foreground window (class `fg_class`, lower-cased title `fg_title_lc`)
/// dismisses row `n` at time `now`, where `needle_lc` is the row's lower-cased basename.
pub fn dismisses(n: &NotifState, needle_lc: &str, fg_class: &str, fg_title_lc: &str, now: u64) -> (r: bool)
    ensures
        r == (source_window_class(n.source_type, fg_class@) && occurs_in(fg_title_lc@, needle_lc@) && !(!(
        n@.input is NoInput) && age(now, n.created_at) < INTERACTIVE_GRACE_MS)),
{
    let class_ok = match window_class_for(n.source_type) {
        Some(c) => eq_ignore_ascii_case(fg_class, c),
        None => false,
    };
    let title_ok = contains(fg_title_lc, needle_lc);
    if !(class_ok && title_ok) {
        return false;
    }
    let age_ms: u64 = if now >= n.created_at {
        now - n.created_at
    } else {
        0
    };
    !(n.input.needs_answer() && age_ms < INTERACTIVE_GRACE_MS)
}

/// The identifiers of the rows that the foreground window (class `fg_class`, title
/// `fg_title`) dismisses at time `now`, in row order.
pub fn foreground_dismissals(notifs: &Vec<NotifState>, fg_class: &str, fg_title: &str, now: u64) -> (r:
    Vec<String>)
    ensures
        chars_of_all(r@) == dismissed_ids(views_of(notifs@), fg_class@, fg_title@, now),
{
    let ghost s = views_of(notifs@);
    let mut out: Vec<String> = Vec::new();
    if fg_class.is_empty() {
        proof {
            assert(chars_of_all(out@) =~= dismissed_ids(s, fg_class@, fg_title@, now));
        }
        return out;
    }
    let title_lc = to_lowercase(fg_title);
    let ghost pred = |n: NotifView| dismissable(n, fg_class@, fg_title@, now);
    let mut i: usize = 0;
    while i < notifs.len()
        invariant
            s == views_of(notifs@),
            fg_class@.len() != 0,
            title_lc@ == unicode_lowercase(fg_title@),
            pred == (|n: NotifView| dismissable(n, fg_class@, fg_title@, now)),
            i <= notifs.len(),
            chars_of_all(out@) == s.take(i as int).filter(pred).map_values(|n: NotifView| n.id),
        decreases notifs.len() - i,
    {
        proof {
            lemma_take_succ(s, i as int);
            s.take(i as int).lemma_filter_push(s[i as int], pred);
            assert(notifs@[i as int]@ == s[i as int]);
        }
        let needle = to_lowercase(notifs[i].source_basename.as_str());
        if dismisses(&notifs[i], needle.as_str(), fg_class, title_lc.as_str(), now) {
            let x = notifs[i].id.clone();
            proof {
                out@.lemma_push_map_commute(|x: String| x@, x);
                s.take(i as int).filter(pred).lemma_push_map_commute(|n: NotifView| n.id, s[i as int]);
            }
            out.push(x);
        }
        i = i + 1;
    }
    proof {
        assert(s.take(notifs.len() as int) =~= s);
    }
    out
}


/// The input a notification asks for follows a fixed priority: a specification sent by the
/// hook wins over everything; otherwise a permission prompt asks for the numbered picker,
/// whatever the message says; otherwise a prompt found in the message asks for yes/no by
/// keystrokes; otherwise nothing is asked.
pub proof fn law_input_priority(given: Option<InputModel>, nt: Option<Seq<char>>, detected: Option<YesNoFormat>)
    ensures
        given matches Some(x) ==> resolved_input(given, nt, detected) == x,
        given is None && is_permission_prompt(nt) ==> resolved_input(given, nt, detected)
            == (InputModel::YesNo { format: YesNoFormat::Numeric, delivery: Delivery::Keystroke }),
        given is None && !is_permission_prompt(nt) && detected is Some ==> resolved_input(given, nt, detected)
            == (InputModel::YesNo { format: detected->0, delivery: Delivery::Keystroke }),
        given is None && !is_permission_prompt(nt) && detected is None ==> resolved_input(given, nt, detected)
            is NoInput,
{
}

/// A row that asks for an answer, or a permission prompt, is never dropped because its
/// terminal is in the foreground.
pub proof fn law_blocking_rows_shown(v: NotifView)
    ensures
        !(v.input is NoInput) ==> must_show_view(v),
        is_permission_prompt(v.notification_type) ==> must_show_view(v),
{
}

/// The foreground watcher never dismisses an interactive row younger than the grace
/// period, never dismisses a row whose source window class is unknown, and dismisses
/// nothing when there is no foreground window.
pub proof fn law_watcher_spares(s: Seq<NotifView>, fg_class: Seq<char>, fg_title: Seq<char>, now: u64)
    ensures
        fg_class.len() == 0 ==> dismissed_rows(s, fg_class, fg_title, now).len() == 0,
        forall|i: int|
            0 <= i < dismissed_rows(s, fg_class, fg_title, now).len() ==> {
                let n = #[trigger] dismissed_rows(s, fg_class, fg_title, now)[i];
                &&& n.input is NoInput || age(now, n.created_at) >= INTERACTIVE_GRACE_MS
                &&& n.source_type != SourceType::Unknown
                &&& s.contains(n)
            },
{
    if fg_class.len() != 0 {
        let pred = |n: NotifView| dismissable(n, fg_class, fg_title, now);
        assert forall|i: int| 0 <= i < s.filter(pred).len() implies {
            let n = #[trigger] s.filter(pred)[i];
            &&& n.input is NoInput || age(now, n.created_at) >= INTERACTIVE_GRACE_MS
            &&& n.source_type != SourceType::Unknown
            &&& s.contains(n)
        } by {
            s.lemma_filter_pred(pred, i);
            assert(s.filter(pred).contains(s.filter(pred)[i]));
            s.lemma_filter_contains_rev(pred, s.filter(pred)[i]);
        }
    }
}

/// A focus gain on a bound session reaches the registry: afterwards its connection is
/// marked focused, its last focus change is the time of the step, and every other
/// connection is as it was.
pub proof fn law_focus_gain_recorded(
    m: Map<Seq<char>, ExtView>,
    id: Seq<char>,
    t: u64,
    m2: Map<Seq<char>, ExtView>,
    bound2: Option<Seq<char>>,
    cmd: Option<Seq<char>>,
)
    requires
        m.contains_key(id),
        session_step(m, Some(id), ExtMessage::WindowFocusChanged { focused: true }, t, m2, bound2, cmd),
    ensures
        m2.contains_key(id),
        m2[id].window_focused,
        m2[id].last_focus_change == t,
        m2[id].terminals == m[id].terminals,
        m2[id].vscode_ipc_hook == m[id].vscode_ipc_hook,
        m2.dom() == m.dom(),
        forall|k: Seq<char>| #[trigger] m.contains_key(k) && k != id ==> m2[k] == m[k],
        bound2 == Some(id),
        cmd is None,
{
    assert(m2.dom() =~= m.dom());
}

/// A focus loss on a bound session marks its connection unfocused and keeps the time of
/// its last focus gain; before registration a focus message changes nothing.
pub proof fn law_focus_loss_keeps_time(
    m: Map<Seq<char>, ExtView>,
    bound: Option<Seq<char>>,
    focused: bool,
    t: u64,
    m2: Map<Seq<char>, ExtView>,
    bound2: Option<Seq<char>>,
    cmd: Option<Seq<char>>,
)
    requires
        bound is Some ==> m.contains_key(bound->0),
        session_step(m, bound, ExtMessage::WindowFocusChanged { focused }, t, m2, bound2, cmd),
    ensures
        bound is None ==> m2 == m,
        bound is Some && !focused ==> {
            &&& m2.contains_key(bound->0)
            &&& !m2[bound->0].window_focused
            &&& m2[bound->0].last_focus_change == m[bound->0].last_focus_change
            &&& m2[bound->0].terminals == m[bound->0].terminals
            &&& m2.dom() == m.dom()
            &&& forall|k: Seq<char>| #[trigger] m.contains_key(k) && k != bound->0 ==> m2[k] == m[k]
        },
        bound2 == bound,
        cmd is None,
{
    assert(m2.dom() =~= m.dom());
}

/// After an extension registers with IPC hook `hook`, routing by that hook finds a
/// connection with that hook: the registered one is such a connection.
pub proof fn law_registered_hook_routes(
    m: Map<Seq<char>, ExtView>,
    ext_id: Seq<char>,
    hook: Seq<char>,
    folders: Seq<String>,
    pid: Option<u32>,
    focused: bool,
    t: u64,
)
    ensures
        hook_owner(m.insert(ext_id, registered(ext_id, hook, folders, pid, focused, t)), hook, ext_id),
{
}

} // verus!
