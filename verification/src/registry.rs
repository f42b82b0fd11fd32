//! Registry of connected VS Code extension instances.
//!
//! Each VS Code window runs its own extension host, so there are several live
//! connections to the daemon. The registry finds the extension to which a
//! focus / send-text / active-terminal command should go, given a notification's
//! IPC hook, shell PID or working directory.

use vstd::prelude::*;

use crate::clock::{instant_now, millis_since};
use crate::input_spec::clone_opt_string;
use crate::text::str_eq;

verus! {

#[verifier::external_type_specification]
#[verifier::external_body]
#[verifier::reject_recursive_types(T)]
pub struct ExUnboundedSender<T>(tokio::sync::mpsc::UnboundedSender<T>);

/// Calls `Clone::clone` on a `tokio::sync::mpsc::UnboundedSender`, which gives another
/// handle on the same channel. Nothing is stated of the handle.
#[verifier::external_body]
pub(crate) fn clone_sender(tx: &tokio::sync::mpsc::UnboundedSender<String>) -> (r:
    tokio::sync::mpsc::UnboundedSender<String>) {
    tx.clone()
}

/// A terminal that an extension reports.
#[derive(Debug)]
pub struct TerminalInfo {
    pub name: String,
    pub cwd: Option<String>,
    pub pid: Option<u32>,
}

impl Clone for TerminalInfo {
    fn clone(&self) -> (r: Self)
        ensures
            r == *self,
    {
        TerminalInfo { name: self.name.clone(), cwd: clone_opt_string(&self.cwd), pid: self.pid }
    }
}

/// One connected extension.
pub struct ExtensionConnection {
    pub ext_id: String,
    pub vscode_ipc_hook: String,
    pub workspace_folders: Vec<String>,
    pub vscode_pid: Option<u32>,
    pub window_focused: bool,
    pub terminals: Vec<TerminalInfo>,
    /// Milliseconds on the registry's monotonic clock of the last focus gain.
    pub last_focus_change: u64,
    /// Channel to the task that writes to the extension's WebSocket.
    pub tx: tokio::sync::mpsc::UnboundedSender<String>,
}

/// What the routing logic knows of a connection (all but its channel).
pub struct ExtView {
    pub ext_id: Seq<char>,
    pub vscode_ipc_hook: Seq<char>,
    pub workspace_folders: Seq<String>,
    pub vscode_pid: Option<u32>,
    pub window_focused: bool,
    pub terminals: Seq<TerminalInfo>,
    pub last_focus_change: u64,
}

impl View for ExtensionConnection {
    type V = ExtView;

    open spec fn view(&self) -> ExtView {
        ExtView {
            ext_id: self.ext_id@,
            vscode_ipc_hook: self.vscode_ipc_hook@,
            workspace_folders: self.workspace_folders@,
            vscode_pid: self.vscode_pid,
            window_focused: self.window_focused,
            terminals: self.terminals@,
            last_focus_change: self.last_focus_change,
        }
    }
}

/// The connection has a terminal whose working directory is `cwd`.
pub open spec fn has_terminal_cwd(e: ExtView, cwd: Seq<char>) -> bool {
    exists|j: int| 0 <= j < e.terminals.len() && opt_is(#[trigger] e.terminals[j].cwd, cwd)
}

/// The connection has a terminal whose process id is `pid`.
pub open spec fn has_terminal_pid(e: ExtView, pid: u32) -> bool {
    exists|j: int| 0 <= j < e.terminals.len() && #[trigger] e.terminals[j].pid == Some(pid)
}

/// `o` holds a string with the characters `s`.
pub open spec fn opt_is(o: Option<String>, s: Seq<char>) -> bool {
    match o {
        Some(v) => v@ == s,
        None => false,
    }
}

/// `m` after connection `k` reports the terminal list `ts` (no change when `k` is unknown).
pub open spec fn with_terminals(m: Map<Seq<char>, ExtView>, k: Seq<char>, ts: Seq<TerminalInfo>) -> Map<
    Seq<char>,
    ExtView,
> {
    if m.contains_key(k) {
        m.insert(k, ExtView { terminals: ts, ..m[k] })
    } else {
        m
    }
}

/// `m` after the window of connection `k` gains (`focused`) or loses focus at time `t`
/// (no change when `k` is unknown). Only a gain moves `last_focus_change`.
pub open spec fn with_focus(m: Map<Seq<char>, ExtView>, k: Seq<char>, focused: bool, t: u64) -> Map<
    Seq<char>,
    ExtView,
> {
    if m.contains_key(k) {
        m.insert(
            k,
            ExtView {
                window_focused: focused,
                last_focus_change: if focused {
                    t
                } else {
                    m[k].last_focus_change
                },
                ..m[k]
            },
        )
    } else {
        m
    }
}

/// The views of a sequence of connections.
pub open spec fn ext_views(s: Seq<ExtensionConnection>) -> Seq<ExtView> {
    s.map_values(|e: ExtensionConnection| e@)
}

/// Index `i` of `s` holds the connection with identifier `k`.
pub open spec fn holds_id(s: Seq<ExtView>, k: Seq<char>, i: int) -> bool {
    0 <= i < s.len() && s[i].ext_id == k
}

/// No two connections of `s` share an identifier.
pub open spec fn ids_distinct(s: Seq<ExtView>) -> bool {
    forall|i: int, j: int|
        0 <= i < s.len() && 0 <= j < s.len() && i != j ==> #[trigger] s[i].ext_id != #[trigger] s[j].ext_id
}

/// The connections of `s`, keyed by identifier.
pub open spec fn map_of(s: Seq<ExtView>) -> Map<Seq<char>, ExtView> {
    Map::new(
        |k: Seq<char>| exists|i: int| holds_id(s, k, i),
        |k: Seq<char>| s[choose|i: int| holds_id(s, k, i)],
    )
}

/// With distinct identifiers, the map sends each identifier to its connection.
proof fn lemma_map_of_at(s: Seq<ExtView>, i: int)
    requires
        ids_distinct(s),
        0 <= i < s.len(),
    ensures
        map_of(s).contains_key(s[i].ext_id),
        map_of(s)[s[i].ext_id] == s[i],
{
    let k = s[i].ext_id;
    assert(holds_id(s, k, i));
    let c = choose|c: int| holds_id(s, k, c);
    assert(c == i);
}

/// Replacing the connection at `i` by one with the same identifier replaces it in the map.
proof fn lemma_map_of_update(s: Seq<ExtView>, i: int, e: ExtView)
    requires
        ids_distinct(s),
        0 <= i < s.len(),
        s[i].ext_id == e.ext_id,
    ensures
        ids_distinct(s.update(i, e)),
        map_of(s.update(i, e)) == map_of(s).insert(e.ext_id, e),
{
    let t = s.update(i, e);
    assert(ids_distinct(t));
    assert forall|k: Seq<char>|
        #![trigger map_of(t).contains_key(k)]
        map_of(t).contains_key(k) <==> map_of(s).insert(e.ext_id, e).contains_key(k) by {
        if map_of(t).contains_key(k) {
            let c = choose|c: int| holds_id(t, k, c);
            if c != i {
                assert(holds_id(s, k, c));
            }
        }
        if map_of(s).contains_key(k) {
            let c = choose|c: int| holds_id(s, k, c);
            assert(holds_id(t, k, c));
        }
        if k == e.ext_id {
            assert(holds_id(t, k, i));
        }
    }
    assert forall|k: Seq<char>|
        #![trigger map_of(t)[k]]
        map_of(t).contains_key(k) ==> map_of(t)[k] == map_of(s).insert(e.ext_id, e)[k] by {
        if map_of(t).contains_key(k) {
            let c = choose|c: int| holds_id(t, k, c);
            lemma_map_of_at(t, c);
            if c != i {
                lemma_map_of_at(s, c);
            }
        }
    }
    assert(map_of(t) =~= map_of(s).insert(e.ext_id, e));
}

/// Appending a connection with a fresh identifier adds it to the map.
proof fn lemma_map_of_push(s: Seq<ExtView>, e: ExtView)
    requires
        ids_distinct(s),
        !map_of(s).contains_key(e.ext_id),
    ensures
        ids_distinct(s.push(e)),
        map_of(s.push(e)) == map_of(s).insert(e.ext_id, e),
{
    let t = s.push(e);
    assert forall|i: int, j: int|
        0 <= i < t.len() && 0 <= j < t.len() && i != j implies #[trigger] t[i].ext_id != #[trigger] t[j].ext_id by {
        if i == s.len() {
            assert(holds_id(s, t[j].ext_id, j));
        }
        if j == s.len() {
            assert(holds_id(s, t[i].ext_id, i));
        }
    }
    assert forall|k: Seq<char>|
        #![trigger map_of(t).contains_key(k)]
        map_of(t).contains_key(k) <==> map_of(s).insert(e.ext_id, e).contains_key(k) by {
        if map_of(t).contains_key(k) {
            let c = choose|c: int| holds_id(t, k, c);
            if c < s.len() {
                assert(holds_id(s, k, c));
            }
        }
        if map_of(s).contains_key(k) {
            let c = choose|c: int| holds_id(s, k, c);
            assert(holds_id(t, k, c));
        }
        if k == e.ext_id {
            assert(holds_id(t, k, s.len() as int));
        }
    }
    assert forall|k: Seq<char>|
        #![trigger map_of(t)[k]]
        map_of(t).contains_key(k) ==> map_of(t)[k] == map_of(s).insert(e.ext_id, e)[k] by {
        if map_of(t).contains_key(k) {
            let c = choose|c: int| holds_id(t, k, c);
            lemma_map_of_at(t, c);
            if c < s.len() {
                lemma_map_of_at(s, c);
            }
        }
    }
    assert(map_of(t) =~= map_of(s).insert(e.ext_id, e));
}

/// Removing the connection at `i` removes its identifier from the map.
proof fn lemma_map_of_remove(s: Seq<ExtView>, i: int)
    requires
        ids_distinct(s),
        0 <= i < s.len(),
    ensures
        ids_distinct(s.remove(i)),
        map_of(s.remove(i)) == map_of(s).remove(s[i].ext_id),
{
    let t = s.remove(i);
    let k0 = s[i].ext_id;
    assert forall|a: int, b: int|
        0 <= a < t.len() && 0 <= b < t.len() && a != b implies #[trigger] t[a].ext_id != #[trigger] t[b].ext_id by {
        let a2 = if a < i { a } else { a + 1 };
        let b2 = if b < i { b } else { b + 1 };
        assert(t[a] == s[a2]);
        assert(t[b] == s[b2]);
    }
    assert forall|k: Seq<char>|
        #![trigger map_of(t).contains_key(k)]
        map_of(t).contains_key(k) <==> map_of(s).remove(k0).contains_key(k) by {
        if map_of(t).contains_key(k) {
            let c = choose|c: int| holds_id(t, k, c);
            let c2 = if c < i { c } else { c + 1 };
            assert(holds_id(s, k, c2));
        }
        if map_of(s).contains_key(k) && k != k0 {
            let c = choose|c: int| holds_id(s, k, c);
            assert(c != i);
            let c2 = if c < i { c } else { c - 1 };
            assert(holds_id(t, k, c2));
        }
    }
    assert forall|k: Seq<char>|
        #![trigger map_of(t)[k]]
        map_of(t).contains_key(k) ==> map_of(t)[k] == map_of(s).remove(k0)[k] by {
        if map_of(t).contains_key(k) {
            let c = choose|c: int| holds_id(t, k, c);
            lemma_map_of_at(t, c);
            let c2 = if c < i { c } else { c + 1 };
            assert(t[c] == s[c2]);
            lemma_map_of_at(s, c2);
        }
    }
    assert(map_of(t) =~= map_of(s).remove(k0));
}

/// The map has as many entries as the sequence has connections.
proof fn lemma_map_of_len(s: Seq<ExtView>)
    requires
        ids_distinct(s),
    ensures
        map_of(s).dom().finite(),
        map_of(s).len() == s.len(),
{
    let ids = s.map_values(|e: ExtView| e.ext_id);
    assert(ids.no_duplicates());
    ids.unique_seq_to_set();
    assert forall|k: Seq<char>| map_of(s).dom().contains(k) <==> ids.to_set().contains(k) by {
        if map_of(s).dom().contains(k) {
            let c = choose|c: int| holds_id(s, k, c);
            assert(ids[c] == k);
        }
        if ids.to_set().contains(k) {
            let c = choose|c: int| 0 <= c < ids.len() && ids[c] == k;
            assert(holds_id(s, k, c));
        }
    }
    assert(map_of(s).dom() =~= ids.to_set());
}

/// A registration replaces any earlier connection with the same identifier: the registry
/// then holds the new connection under it, and grows only when the identifier is new.
pub proof fn law_insert_replaces(m: Map<Seq<char>, ExtView>, k: Seq<char>, e: ExtView)
    requires
        m.dom().finite(),
    ensures
        m.insert(k, e).contains_key(k),
        m.insert(k, e)[k] == e,
        m.insert(k, e).len() == if m.contains_key(k) {
            m.len()
        } else {
            m.len() + 1
        },
{
}

/// A removed connection is gone, and the registry shrinks by one when it was there.
pub proof fn law_remove_drops(m: Map<Seq<char>, ExtView>, k: Seq<char>)
    requires
        m.dom().finite(),
    ensures
        !m.remove(k).contains_key(k),
        m.remove(k).len() == if m.contains_key(k) {
            m.len() - 1
        } else {
            m.len() as int
        },
{
}

/// A terminal update replaces the whole terminal list of the connection and leaves every
/// other connection, and the set of connections, as they were.
pub proof fn law_terminals_replaced(m: Map<Seq<char>, ExtView>, k: Seq<char>, ts: Seq<TerminalInfo>)
    ensures
        with_terminals(m, k, ts).dom() == m.dom(),
        m.contains_key(k) ==> with_terminals(m, k, ts)[k].terminals == ts,
        forall|k2: Seq<char>| #[trigger] m.contains_key(k2) && k2 != k ==> with_terminals(m, k, ts)[k2] == m[k2],
{
    assert(with_terminals(m, k, ts).dom() =~= m.dom());
}

/// The connection that gains focus last is preferred for its working directories: after a
/// focus gain at a time no earlier than any recorded focus change, it has the latest focus
/// change among the connections with a terminal in a directory of its own.
pub proof fn law_latest_focus_wins(m: Map<Seq<char>, ExtView>, k: Seq<char>, t: u64, cwd: Seq<char>)
    requires
        m.contains_key(k),
        has_terminal_cwd(m[k], cwd),
        forall|k2: Seq<char>| #[trigger] m.contains_key(k2) ==> m[k2].last_focus_change <= t,
    ensures
        has_terminal_cwd(with_focus(m, k, true, t)[k], cwd),
        forall|k2: Seq<char>|
            #[trigger] with_focus(m, k, true, t).contains_key(k2) && has_terminal_cwd(with_focus(m, k, true, t)[k2], cwd)
                ==> with_focus(m, k, true, t)[k2].last_focus_change <= with_focus(m, k, true, t)[k].last_focus_change,
{
    let m2 = with_focus(m, k, true, t);
    assert(m2[k].terminals == m[k].terminals);
    assert forall|k2: Seq<char>| #[trigger] m2.contains_key(k2) && has_terminal_cwd(m2[k2], cwd) implies m2[k2].last_focus_change
        <= m2[k].last_focus_change by {
        if k2 != k {
            assert(m.contains_key(k2));
        }
    }
}

/// The connected extensions, keyed by extension identifier.
pub struct Registry {
    inner: Vec<ExtensionConnection>,
    epoch: std::time::Instant,
}

impl View for Registry {
    type V = Map<Seq<char>, ExtView>;

    closed spec fn view(&self) -> Map<Seq<char>, ExtView> {
        map_of(ext_views(self.inner@))
    }
}

impl Registry {
    #[verifier::type_invariant]
    closed spec fn ids_unique(&self) -> bool {
        ids_distinct(ext_views(self.inner@))
    }

    pub fn new() -> (r: Self)
        ensures
            r@ == Map::<Seq<char>, ExtView>::empty(),
    {
        let r = Registry { inner: Vec::new(), epoch: instant_now() };
        proof {
            assert(r@ =~= Map::<Seq<char>, ExtView>::empty());
        }
        r
    }

    /// Milliseconds elapsed on this registry's clock; `last_focus_change` is measured on it.
    pub fn now_millis(&self) -> u64 {
        millis_since(&self.epoch)
    }

    /// Adds `ext`, replacing any connection with the same identifier.
    pub fn insert(&mut self, ext: ExtensionConnection)
        ensures
            final(self)@ == old(self)@.insert(ext.ext_id@, ext@),
    {
        proof {
            use_type_invariant(&*self);
        }
        let mut v: Vec<ExtensionConnection> = Vec::new();
        std::mem::swap(&mut v, &mut self.inner);
        let ghost s = ext_views(v@);
        let ghost e = ext@;
        match position_of(&v, ext.ext_id.as_str()) {
            Some(i) => {
                proof {
                    lemma_map_of_update(s, i as int, e);
                }
                v.set(i, ext);
                proof {
                    assert(ext_views(v@) =~= s.update(i as int, e));
                }
            },
            None => {
                proof {
                    lemma_map_of_push(s, e);
                    v@.lemma_push_map_commute(|x: ExtensionConnection| x@, ext);
                }
                v.push(ext);
            },
        }
        self.inner = v;
    }

    /// Drops the connection with identifier `ext_id`, if any.
    pub fn remove(&mut self, ext_id: &str)
        ensures
            final(self)@ == old(self)@.remove(ext_id@),
    {
        proof {
            use_type_invariant(&*self);
        }
        let mut v: Vec<ExtensionConnection> = Vec::new();
        std::mem::swap(&mut v, &mut self.inner);
        let ghost s = ext_views(v@);
        match position_of(&v, ext_id) {
            Some(i) => {
                proof {
                    lemma_map_of_remove(s, i as int);
                }
                v.remove(i);
                proof {
                    assert(ext_views(v@) =~= s.remove(i as int));
                }
            },
            None => {
                proof {
                    lemma_absent(s, ext_id@);
                    assert(map_of(s).remove(ext_id@) =~= map_of(s));
                }
            },
        }
        self.inner = v;
    }

    /// Replaces the terminal list of connection `ext_id`, if it is registered.
    pub fn update_terminals(&mut self, ext_id: &str, terminals: Vec<TerminalInfo>)
        ensures
            final(self)@ == with_terminals(old(self)@, ext_id@, terminals@),
    {
        proof {
            use_type_invariant(&*self);
        }
        let mut v: Vec<ExtensionConnection> = Vec::new();
        std::mem::swap(&mut v, &mut self.inner);
        let ghost s = ext_views(v@);
        match position_of(&v, ext_id) {
            Some(i) => {
                let mut e = v.remove(i);
                e.terminals = terminals;
                proof {
                    lemma_map_of_at(s, i as int);
                    lemma_map_of_update(s, i as int, e@);
                }
                v.insert(i, e);
                proof {
                    assert(ext_views(v@) =~= s.update(i as int, e@));
                }
            },
            None => {
                proof {
                    lemma_absent(s, ext_id@);
                }
            },
        }
        self.inner = v;
    }

    /// Records a focus change of connection `ext_id` at time `now`: the focus flag takes
    /// `focused`, and a gain of focus also sets `last_focus_change` to `now`.
    pub fn update_focus_at(&mut self, ext_id: &str, focused: bool, now: u64)
        ensures
            final(self)@ == with_focus(old(self)@, ext_id@, focused, now),
    {
        proof {
            use_type_invariant(&*self);
        }
        let mut v: Vec<ExtensionConnection> = Vec::new();
        std::mem::swap(&mut v, &mut self.inner);
        let ghost s = ext_views(v@);
        match position_of(&v, ext_id) {
            Some(i) => {
                let mut e = v.remove(i);
                e.window_focused = focused;
                if focused {
                    e.last_focus_change = now;
                }
                proof {
                    lemma_map_of_at(s, i as int);
                    lemma_map_of_update(s, i as int, e@);
                }
                v.insert(i, e);
                proof {
                    assert(ext_views(v@) =~= s.update(i as int, e@));
                }
            },
            None => {
                proof {
                    lemma_absent(s, ext_id@);
                }
            },
        }
        self.inner = v;
    }

    /// Records a focus change of connection `ext_id` at the current time of the
    /// registry's clock.
    pub fn update_focus(&mut self, ext_id: &str, focused: bool)
        ensures
            exists|t: u64| final(self)@ == with_focus(old(self)@, ext_id@, focused, t),
    {
        let now = self.now_millis();
        self.update_focus_at(ext_id, focused, now);
    }

    /// Find an extension by exact IPC hook match (the best identifier).
    pub fn find_by_ipc_hook(&self, hook: &str) -> (r: Option<String>)
        ensures
            r is None <==> forall|k: Seq<char>|
                #[trigger] self@.contains_key(k) ==> self@[k].vscode_ipc_hook != hook@,
            r matches Some(id) ==> self@.contains_key(id@) && self@[id@].vscode_ipc_hook == hook@,
    {
        proof {
            use_type_invariant(self);
        }
        let ghost s = ext_views(self.inner@);
        let mut i: usize = 0;
        while i < self.inner.len()
            invariant
                s == ext_views(self.inner@),
                ids_distinct(s),
                i <= self.inner.len(),
                forall|j: int| 0 <= j < i ==> (#[trigger] s[j]).vscode_ipc_hook != hook@,
            decreases self.inner.len() - i,
        {
            if str_eq(self.inner[i].vscode_ipc_hook.as_str(), hook) {
                proof {
                    lemma_map_of_at(s, i as int);
                }
                return Some(self.inner[i].ext_id.clone());
            }
            i = i + 1;
        }
        proof {
            lemma_map_of_entries(s);
        }
        None
    }

    /// Find an extension that has a terminal with process id `pid`.
    pub fn find_by_terminal_pid(&self, pid: u32) -> (r: Option<String>)
        ensures
            r is None <==> forall|k: Seq<char>|
                #[trigger] self@.contains_key(k) ==> !has_terminal_pid(self@[k], pid),
            r matches Some(id) ==> self@.contains_key(id@) && has_terminal_pid(self@[id@], pid),
    {
        proof {
            use_type_invariant(self);
        }
        let ghost s = ext_views(self.inner@);
        let mut i: usize = 0;
        while i < self.inner.len()
            invariant
                s == ext_views(self.inner@),
                ids_distinct(s),
                i <= self.inner.len(),
                forall|j: int| 0 <= j < i ==> !has_terminal_pid(#[trigger] s[j], pid),
            decreases self.inner.len() - i,
        {
            if has_pid(&self.inner[i].terminals, pid) {
                proof {
                    lemma_map_of_at(s, i as int);
                    assert(s[i as int].terminals == self.inner@[i as int].terminals@);
                    assert(has_terminal_pid(s[i as int], pid));
                    assert(self@.contains_key(s[i as int].ext_id));
                }
                return Some(self.inner[i].ext_id.clone());
            }
            i = i + 1;
        }
        proof {
            lemma_map_of_entries(s);
        }
        None
    }

    /// Find the extension(s) that have a terminal with working directory `cwd`; of
    /// several, the one whose window gained focus most recently.
    pub fn find_by_terminal_cwd(&self, cwd: &str) -> (r: Option<String>)
        ensures
            r is None <==> forall|k: Seq<char>|
                #[trigger] self@.contains_key(k) ==> !has_terminal_cwd(self@[k], cwd@),
            r matches Some(id) ==> {
                &&& self@.contains_key(id@)
                &&& has_terminal_cwd(self@[id@], cwd@)
                &&& forall|k: Seq<char>|
                    #[trigger] self@.contains_key(k) && has_terminal_cwd(self@[k], cwd@)
                        ==> self@[k].last_focus_change <= self@[id@].last_focus_change
            },
    {
        proof {
            use_type_invariant(self);
        }
        let ghost s = ext_views(self.inner@);
        let mut best: Option<usize> = None;
        let mut i: usize = 0;
        while i < self.inner.len()
            invariant
                s == ext_views(self.inner@),
                ids_distinct(s),
                i <= self.inner.len(),
                match best {
                    Some(b) => {
                        &&& b < i
                        &&& has_terminal_cwd(s[b as int], cwd@)
                        &&& forall|j: int|
                            0 <= j < i && has_terminal_cwd(#[trigger] s[j], cwd@)
                                ==> s[j].last_focus_change <= s[b as int].last_focus_change
                    },
                    None => forall|j: int| 0 <= j < i ==> !has_terminal_cwd(#[trigger] s[j], cwd@),
                },
            decreases self.inner.len() - i,
        {
            if has_cwd(&self.inner[i].terminals, cwd) {
                match best {
                    Some(b) => {
                        if self.inner[i].last_focus_change >= self.inner[b].last_focus_change {
                            best = Some(i);
                        }
                    },
                    None => {
                        best = Some(i);
                    },
                }
            }
            i = i + 1;
        }
        proof {
            lemma_map_of_entries(s);
        }
        match best {
            Some(b) => {
                proof {
                    lemma_map_of_at(s, b as int);
                }
                Some(self.inner[b].ext_id.clone())
            },
            None => None,
        }
    }

    /// A handle on the outgoing channel of connection `ext_id`, if it is registered.
    pub fn get_tx(&self, ext_id: &str) -> (r: Option<tokio::sync::mpsc::UnboundedSender<String>>)
        ensures
            r is Some <==> self@.contains_key(ext_id@),
    {
        proof {
            use_type_invariant(self);
        }
        match position_of(&self.inner, ext_id) {
            Some(i) => {
                proof {
                    lemma_map_of_at(ext_views(self.inner@), i as int);
                }
                Some(clone_sender(&self.inner[i].tx))
            },
            None => {
                proof {
                    lemma_absent(ext_views(self.inner@), ext_id@);
                }
                None
            },
        }
    }

    /// The number of registered connections.
    pub fn len(&self) -> (r: usize)
        ensures
            r == self@.len(),
    {
        proof {
            use_type_invariant(self);
            lemma_map_of_len(ext_views(self.inner@));
        }
        self.inner.len()
    }
}

/// Every key of the map is held at some index, with the connection at that index.
proof fn lemma_map_of_entries(s: Seq<ExtView>)
    requires
        ids_distinct(s),
    ensures
        forall|k: Seq<char>|
            #[trigger] map_of(s).contains_key(k) ==> exists|i: int|
                holds_id(s, k, i) && map_of(s)[k] == s[i],
{
    assert forall|k: Seq<char>| #[trigger] map_of(s).contains_key(k) implies exists|i: int|
        holds_id(s, k, i) && map_of(s)[k] == s[i] by {
        let c = choose|c: int| holds_id(s, k, c);
        lemma_map_of_at(s, c);
    }
}

/// An identifier held at no index is not a key of the map.
proof fn lemma_absent(s: Seq<ExtView>, k: Seq<char>)
    requires
        forall|j: int| 0 <= j < s.len() ==> !holds_id(s, k, j),
    ensures
        !map_of(s).contains_key(k),
{
}

/// Whether a terminal of `ts` has process id `pid`.
fn has_pid(ts: &Vec<TerminalInfo>, pid: u32) -> (r: bool)
    ensures
        r == exists|j: int| 0 <= j < ts@.len() && #[trigger] ts@[j].pid == Some(pid),
{
    let mut j: usize = 0;
    while j < ts.len()
        invariant
            j <= ts.len(),
            forall|m: int| 0 <= m < j ==> #[trigger] ts@[m].pid != Some(pid),
        decreases ts.len() - j,
    {
        if ts[j].pid == Some(pid) {
            return true;
        }
        j = j + 1;
    }
    false
}

/// Whether a terminal of `ts` has working directory `cwd`.
fn has_cwd(ts: &Vec<TerminalInfo>, cwd: &str) -> (r: bool)
    ensures
        r == exists|j: int| 0 <= j < ts@.len() && opt_is(#[trigger] ts@[j].cwd, cwd@),
{
    let mut j: usize = 0;
    while j < ts.len()
        invariant
            j <= ts.len(),
            forall|m: int| 0 <= m < j ==> !opt_is(#[trigger] ts@[m].cwd, cwd@),
        decreases ts.len() - j,
    {
        match &ts[j].cwd {
            Some(c) => {
                if str_eq(c.as_str(), cwd) {
                    return true;
                }
            },
            None => {},
        }
        j = j + 1;
    }
    false
}

/// The first index of `v` that holds identifier `ext_id`.
fn position_of(v: &Vec<ExtensionConnection>, ext_id: &str) -> (r: Option<usize>)
    ensures
        match r {
            Some(i) => holds_id(ext_views(v@), ext_id@, i as int),
            None => forall|j: int| 0 <= j < v.len() ==> !holds_id(ext_views(v@), ext_id@, j),
        },
{
    let mut i: usize = 0;
    while i < v.len()
        invariant
            i <= v.len(),
            forall|j: int| 0 <= j < i ==> !holds_id(ext_views(v@), ext_id@, j),
        decreases v.len() - i,
    {
        if str_eq(v[i].ext_id.as_str(), ext_id) {
            return Some(i);
        }
        i = i + 1;
    }
    None
}

} // verus!
