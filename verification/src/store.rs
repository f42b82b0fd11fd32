//! In-memory list of the live notifications that the overlay shows.

use vstd::prelude::*;

use crate::clock::{instant_now, millis_since};
use crate::input_spec::{InputModel, InputSpec};
use crate::text::str_eq;

verus! {

/// Which terminal host a notification came from.
#[derive(Debug, Clone, Copy, PartialEq, Eq, Structural)]
pub enum SourceType {
    Vscode,
    Wt,
    Unknown,
}

/// The hook event that produced a notification.
#[derive(Debug, Clone, Copy, PartialEq, Eq, Structural)]
pub enum HookEvent {
    Notification,
    Stop,
    AskQuestion,
}

/// One live notification.
#[derive(Debug)]
pub struct NotifState {
    pub id: String,
    pub event: HookEvent,
    pub source_type: SourceType,
    pub source_basename: String,
    pub cwd: String,
    pub message: String,
    /// What the row asks of the user, and how the answer is delivered.
    pub input: InputSpec,
    pub target_ext_id: Option<String>,
    pub vscode_ipc_hook: Option<String>,
    pub wt_session: Option<String>,
    /// Outermost shell PID of the terminal the assistant runs in.
    pub shell_pid: Option<u32>,
    /// "permission_prompt", "idle_prompt", or absent.
    pub notification_type: Option<String>,
    /// Milliseconds on the store's monotonic clock when the row was added.
    pub created_at: u64,
}

/// The mathematical content of a `NotifState`: strings as character sequences.
pub struct NotifView {
    pub id: Seq<char>,
    pub event: HookEvent,
    pub source_type: SourceType,
    pub source_basename: Seq<char>,
    pub cwd: Seq<char>,
    pub message: Seq<char>,
    pub input: InputModel,
    pub target_ext_id: Option<Seq<char>>,
    pub vscode_ipc_hook: Option<Seq<char>>,
    pub wt_session: Option<Seq<char>>,
    pub shell_pid: Option<u32>,
    pub notification_type: Option<Seq<char>>,
    pub created_at: u64,
}

/// The characters of an optional string.
pub open spec fn opt_chars(s: Option<String>) -> Option<Seq<char>> {
    match s {
        Some(v) => Some(v@),
        None => None,
    }
}

impl View for NotifState {
    type V = NotifView;

    open spec fn view(&self) -> NotifView {
        NotifView {
            id: self.id@,
            event: self.event,
            source_type: self.source_type,
            source_basename: self.source_basename@,
            cwd: self.cwd@,
            message: self.message@,
            input: self.input@,
            target_ext_id: opt_chars(self.target_ext_id),
            vscode_ipc_hook: opt_chars(self.vscode_ipc_hook),
            wt_session: opt_chars(self.wt_session),
            shell_pid: self.shell_pid,
            notification_type: opt_chars(self.notification_type),
            created_at: self.created_at,
        }
    }
}

impl Clone for NotifState {
    fn clone(&self) -> (r: Self)
        ensures
            r@ == self@,
    {
        NotifState {
            id: self.id.clone(),
            event: self.event,
            source_type: self.source_type,
            source_basename: self.source_basename.clone(),
            cwd: self.cwd.clone(),
            message: self.message.clone(),
            input: self.input.clone(),
            target_ext_id: crate::input_spec::clone_opt_string(&self.target_ext_id),
            vscode_ipc_hook: crate::input_spec::clone_opt_string(&self.vscode_ipc_hook),
            wt_session: crate::input_spec::clone_opt_string(&self.wt_session),
            shell_pid: self.shell_pid,
            notification_type: crate::input_spec::clone_opt_string(&self.notification_type),
            created_at: self.created_at,
        }
    }
}

/// `v` with the identifier and creation time that the store assigns.
pub open spec fn stamped(v: NotifView, id: Seq<char>, t: u64) -> NotifView {
    NotifView { id: id, created_at: t, ..v }
}

/// Whether `c` is a lower-case hexadecimal digit.
pub open spec fn is_lower_hex(c: char) -> bool {
    ('0' <= c && c <= '9') || ('a' <= c && c <= 'f')
}

/// The hyphenated lower-case text form of a version-4 UUID: 8-4-4-4-12 hex digits,
/// with the version digit `4` opening the third group.
pub open spec fn is_v4_uuid_text(s: Seq<char>) -> bool {
    &&& s.len() == 36
    &&& forall|i: int|
        0 <= i < 36 ==> if i == 8 || i == 13 || i == 18 || i == 23 {
            s[i] == '-'
        } else {
            is_lower_hex(#[trigger] s[i])
        }
    &&& s[14] == '4'
}

/// Calls `uuid::Uuid::new_v4` and renders the UUID with its `Display` impl (lower-case
/// hyphenated form). The value is random: only its shape is stated.
#[verifier::external_body]
fn new_notif_id() -> (r: String)
    ensures
        is_v4_uuid_text(r@),
{
    uuid::Uuid::new_v4().to_string()
}

/// No row of `s` has identifier `id`.
pub open spec fn lacks_id(s: Seq<NotifView>, id: Seq<char>) -> bool {
    forall|j: int| 0 <= j < s.len() ==> (#[trigger] s[j]).id != id
}

/// Row `i` is the first row of `s` with identifier `id`.
pub open spec fn first_with_id(s: Seq<NotifView>, id: Seq<char>, i: int) -> bool {
    &&& 0 <= i < s.len()
    &&& s[i].id == id
    &&& forall|j: int| 0 <= j < i ==> (#[trigger] s[j]).id != id
}

/// The views of a sequence of rows.
pub open spec fn views_of(v: Seq<NotifState>) -> Seq<NotifView> {
    v.map_values(|n: NotifState| n@)
}

/// The characters of each string of a sequence.
pub open spec fn chars_of_all(v: Seq<String>) -> Seq<Seq<char>> {
    v.map_values(|x: String| x@)
}

/// The rows of `s` whose working directory is `cwd`, in order.
pub open spec fn rows_in(s: Seq<NotifView>, cwd: Seq<char>) -> Seq<NotifView> {
    s.filter(|n: NotifView| n.cwd == cwd)
}

/// The rows of `s` whose working directory is not `cwd`, in order.
pub open spec fn rows_not_in(s: Seq<NotifView>, cwd: Seq<char>) -> Seq<NotifView> {
    s.filter(|n: NotifView| n.cwd != cwd)
}

/// The identifiers of the rows of `s` whose working directory is `cwd`, in order.
pub open spec fn ids_in(s: Seq<NotifView>, cwd: Seq<char>) -> Seq<Seq<char>> {
    rows_in(s, cwd).map_values(|n: NotifView| n.id)
}

/// Taking one more element of `s` appends that element.
pub(crate) proof fn lemma_take_succ<A>(s: Seq<A>, i: int)
    requires
        0 <= i < s.len(),
    ensures
        s.take(i + 1) == s.take(i).push(s[i]),
{
    assert(s.take(i + 1) =~= s.take(i).push(s[i]));
}

/// No two rows of `s` share an identifier.
pub open spec fn ids_unique(s: Seq<NotifView>) -> bool {
    forall|i: int, j: int| 0 <= i < s.len() && 0 <= j < s.len() && i != j ==> #[trigger] s[i].id != #[trigger] s[j].id
}

/// At most one row of `s` per working directory.
pub open spec fn one_row_per_cwd(s: Seq<NotifView>) -> bool {
    forall|i: int, j: int| 0 <= i < s.len() && 0 <= j < s.len() && i != j ==> #[trigger] s[i].cwd != #[trigger] s[j].cwd
}

/// A read gives back a write: after a row is added under an identifier that no row had,
/// the first row with that identifier is the added row, as the store stamped it.
pub proof fn law_get_after_add(s: Seq<NotifView>, v: NotifView, id: Seq<char>, t: u64)
    requires
        lacks_id(s, id),
    ensures
        first_with_id(s.push(stamped(v, id, t)), id, s.len() as int),
        s.push(stamped(v, id, t))[s.len() as int] == stamped(v, id, t),
{
}

/// Removing a row just added under a fresh identifier returns that row and gives back
/// the store as it was.
pub proof fn law_remove_undoes_add(s: Seq<NotifView>, v: NotifView, id: Seq<char>, t: u64)
    requires
        lacks_id(s, id),
    ensures
        first_with_id(s.push(stamped(v, id, t)), id, s.len() as int),
        s.push(stamped(v, id, t)).remove(s.len() as int) == s,
{
    assert(s.push(stamped(v, id, t)).remove(s.len() as int) =~= s);
}

/// In a store whose identifiers are unique, a removed identifier is gone: removing it
/// again finds nothing, and the other rows keep their order.
pub proof fn law_remove_drops(s: Seq<NotifView>, id: Seq<char>, i: int)
    requires
        ids_unique(s),
        first_with_id(s, id, i),
    ensures
        lacks_id(s.remove(i), id),
        ids_unique(s.remove(i)),
        s.remove(i).len() == s.len() - 1,
{
    let t = s.remove(i);
    assert forall|j: int| 0 <= j < t.len() implies (#[trigger] t[j]).id != id by {
        if j < i {
            assert(t[j] == s[j]);
        } else {
            assert(t[j] == s[j + 1]);
        }
    }
    assert forall|a: int, b: int| 0 <= a < t.len() && 0 <= b < t.len() && a != b implies #[trigger] t[a].id
        != #[trigger] t[b].id by {
        let a2 = if a < i { a } else { a + 1 };
        let b2 = if b < i { b } else { b + 1 };
        assert(t[a] == s[a2]);
        assert(t[b] == s[b2]);
    }
}

/// Adding under an identifier that no row has keeps identifiers unique.
pub proof fn law_add_keeps_ids_unique(s: Seq<NotifView>, v: NotifView, id: Seq<char>, t: u64)
    requires
        ids_unique(s),
        lacks_id(s, id),
    ensures
        ids_unique(s.push(stamped(v, id, t))),
{
    let u = s.push(stamped(v, id, t));
    assert forall|a: int, b: int| 0 <= a < u.len() && 0 <= b < u.len() && a != b implies #[trigger] u[a].id
        != #[trigger] u[b].id by {
        if a == s.len() {
            assert(s[b].id != id);
        } else if b == s.len() {
            assert(s[a].id != id);
        }
    }
}

/// After a deduplicating add, the new row is the only row in its working directory, and
/// every row of another directory is still there, in order.
pub proof fn law_dedup_leaves_one_row(s: Seq<NotifView>, v: NotifView, id: Seq<char>, t: u64)
    ensures
        rows_in(rows_not_in(s, v.cwd).push(stamped(v, id, t)), v.cwd) == seq![stamped(v, id, t)],
        rows_not_in(rows_not_in(s, v.cwd).push(stamped(v, id, t)), v.cwd) == rows_not_in(s, v.cwd),
{
    let kept = rows_not_in(s, v.cwd);
    let x = stamped(v, id, t);
    kept.lemma_filter_push(x, |n: NotifView| n.cwd == v.cwd);
    kept.lemma_filter_push(x, |n: NotifView| n.cwd != v.cwd);
    lemma_filter_none(s, v.cwd);
    lemma_filter_all(s, v.cwd);
    assert(Seq::<NotifView>::empty().push(x) =~= seq![x]);
}

/// No row of the rows outside `cwd` is in `cwd`.
proof fn lemma_filter_none(s: Seq<NotifView>, cwd: Seq<char>)
    ensures
        rows_in(rows_not_in(s, cwd), cwd) == Seq::<NotifView>::empty(),
{
    let k = rows_not_in(s, cwd);
    let r = rows_in(k, cwd);
    if r.len() > 0 {
        k.lemma_filter_pred(|n: NotifView| n.cwd == cwd, 0);
        assert(r.contains(r[0]));
        k.lemma_filter_contains_rev(|n: NotifView| n.cwd == cwd, r[0]);
        let j = choose|j: int| 0 <= j < k.len() && k[j] == r[0];
        s.lemma_filter_pred(|n: NotifView| n.cwd != cwd, j);
    }
    assert(r =~= Seq::<NotifView>::empty());
}

/// Filtering the rows outside `cwd` again changes nothing.
proof fn lemma_filter_all(s: Seq<NotifView>, cwd: Seq<char>)
    ensures
        rows_not_in(rows_not_in(s, cwd), cwd) == rows_not_in(s, cwd),
    decreases s.len(),
{
    reveal_with_fuel(Seq::<_>::filter, 1);
    if s.len() > 0 {
        lemma_filter_all(s.drop_last(), cwd);
        let k = rows_not_in(s.drop_last(), cwd);
        if s.last().cwd != cwd {
            k.lemma_filter_push(s.last(), |n: NotifView| n.cwd != cwd);
        }
    }
}

/// A deduplicating add keeps at most one row per working directory.
pub proof fn law_dedup_keeps_one_row_per_cwd(s: Seq<NotifView>, v: NotifView, id: Seq<char>, t: u64)
    requires
        one_row_per_cwd(s),
    ensures
        one_row_per_cwd(rows_not_in(s, v.cwd).push(stamped(v, id, t))),
{
    let kept = rows_not_in(s, v.cwd);
    let u = kept.push(stamped(v, id, t));
    lemma_filter_subseq_distinct(s, v.cwd);
    assert forall|a: int, b: int| 0 <= a < u.len() && 0 <= b < u.len() && a != b implies #[trigger] u[a].cwd
        != #[trigger] u[b].cwd by {
        if a == kept.len() {
            s.lemma_filter_pred(|n: NotifView| n.cwd != v.cwd, b);
        } else if b == kept.len() {
            s.lemma_filter_pred(|n: NotifView| n.cwd != v.cwd, a);
        } else {
            assert(u[a] == kept[a] && u[b] == kept[b]);
        }
    }
}

/// A deduplicating add under an identifier that no row has keeps identifiers unique.
pub proof fn law_dedup_keeps_ids_unique(s: Seq<NotifView>, v: NotifView, id: Seq<char>, t: u64)
    requires
        ids_unique(s),
        lacks_id(s, id),
    ensures
        ids_unique(rows_not_in(s, v.cwd).push(stamped(v, id, t))),
{
    let kept = rows_not_in(s, v.cwd);
    let u = kept.push(stamped(v, id, t));
    lemma_filter_keeps_ids_unique(s, v.cwd);
    assert forall|a: int, b: int| 0 <= a < u.len() && 0 <= b < u.len() && a != b implies #[trigger] u[a].id
        != #[trigger] u[b].id by {
        if a == kept.len() || b == kept.len() {
            let c = if a == kept.len() { b } else { a };
            assert(u[c] == kept[c]);
            assert(kept.contains(kept[c]));
            s.lemma_filter_contains_rev(|n: NotifView| n.cwd != v.cwd, kept[c]);
        } else {
            assert(u[a] == kept[a] && u[b] == kept[b]);
        }
    }
}

/// Filtering keeps identifiers distinct.
proof fn lemma_filter_keeps_ids_unique(s: Seq<NotifView>, cwd: Seq<char>)
    requires
        ids_unique(s),
    ensures
        ids_unique(rows_not_in(s, cwd)),
    decreases s.len(),
{
    reveal_with_fuel(Seq::<_>::filter, 1);
    if s.len() > 0 {
        let d = s.drop_last();
        let x = s.last();
        assert(ids_unique(d)) by {
            assert forall|a: int, b: int| 0 <= a < d.len() && 0 <= b < d.len() && a != b implies #[trigger] d[a].id
                != #[trigger] d[b].id by {
                assert(d[a] == s[a] && d[b] == s[b]);
            }
        }
        lemma_filter_keeps_ids_unique(d, cwd);
        let k = rows_not_in(d, cwd);
        if x.cwd != cwd {
            let u = k.push(x);
            assert forall|a: int, b: int| 0 <= a < u.len() && 0 <= b < u.len() && a != b implies #[trigger] u[a].id
                != #[trigger] u[b].id by {
                if a == k.len() || b == k.len() {
                    let c = if a == k.len() { b } else { a };
                    assert(u[c] == k[c]);
                    assert(k.contains(k[c]));
                    d.lemma_filter_contains_rev(|n: NotifView| n.cwd != cwd, k[c]);
                    let j = choose|j: int| 0 <= j < d.len() && d[j] == k[c];
                    assert(s[j] == d[j]);
                    assert(s[s.len() - 1] == x);
                } else {
                    assert(u[a] == k[a] && u[b] == k[b]);
                }
            }
        }
    }
}

/// Filtering keeps working directories distinct.
proof fn lemma_filter_subseq_distinct(s: Seq<NotifView>, cwd: Seq<char>)
    requires
        one_row_per_cwd(s),
    ensures
        one_row_per_cwd(rows_not_in(s, cwd)),
    decreases s.len(),
{
    reveal_with_fuel(Seq::<_>::filter, 1);
    if s.len() > 0 {
        let d = s.drop_last();
        let x = s.last();
        assert(one_row_per_cwd(d)) by {
            assert forall|a: int, b: int| 0 <= a < d.len() && 0 <= b < d.len() && a != b implies #[trigger] d[a].cwd
                != #[trigger] d[b].cwd by {
                assert(d[a] == s[a] && d[b] == s[b]);
            }
        }
        lemma_filter_subseq_distinct(d, cwd);
        let k = rows_not_in(d, cwd);
        if x.cwd != cwd {
            let u = k.push(x);
            assert forall|a: int, b: int| 0 <= a < u.len() && 0 <= b < u.len() && a != b implies #[trigger] u[a].cwd
                != #[trigger] u[b].cwd by {
                if a == k.len() || b == k.len() {
                    let c = if a == k.len() { b } else { a };
                    assert(u[c] == k[c]);
                    assert(k.contains(k[c]));
                    d.lemma_filter_contains_rev(|n: NotifView| n.cwd != cwd, k[c]);
                    let j = choose|j: int| 0 <= j < d.len() && d[j] == k[c];
                    assert(s[j] == d[j]);
                    assert(s[s.len() - 1] == x);
                } else {
                    assert(u[a] == k[a] && u[b] == k[b]);
                }
            }
        }
    }
}

/// The live notifications, oldest first.
pub struct NotifStore {
    inner: Vec<NotifState>,
    epoch: std::time::Instant,
}

impl View for NotifStore {
    type V = Seq<NotifView>;

    closed spec fn view(&self) -> Seq<NotifView> {
        views_of(self.inner@)
    }
}

impl NotifStore {
    pub fn new() -> (r: Self)
        ensures
            r@ == Seq::<NotifView>::empty(),
    {
        let r = NotifStore { inner: Vec::new(), epoch: instant_now() };
        proof {
            assert(r@ =~= Seq::<NotifView>::empty());
        }
        r
    }

    /// Milliseconds elapsed on this store's clock; `created_at` is measured on it.
    pub fn now_millis(&self) -> u64 {
        millis_since(&self.epoch)
    }

    /// Appends `state` under a fresh identifier and the current time; returns the identifier.
    pub fn add(&mut self, state: NotifState) -> (r: String)
        ensures
            is_v4_uuid_text(r@),
            final(self)@.len() == old(self)@.len() + 1,
            final(self)@ == old(self)@.push(stamped(state@, r@, final(self)@.last().created_at)),
    {
        let mut state = state;
        state.id = new_notif_id();
        state.created_at = millis_since(&self.epoch);
        let id = state.id.clone();
        let ghost before = self.inner@;
        self.inner.push(state);
        proof {
            assert(self@ =~= old(self)@.push(stamped(state@, id@, self@.last().created_at)));
        }
        id
    }

    /// Removes every row with the same working directory as `state`, then appends
    /// `state` under a fresh identifier. Returns the new identifier and the identifiers
    /// of the removed rows, in their order.
    pub fn add_dedup_by_cwd(&mut self, state: NotifState) -> (r: (String, Vec<String>))
        ensures
            is_v4_uuid_text(r.0@),
            final(self)@.len() == rows_not_in(old(self)@, state.cwd@).len() + 1,
            final(self)@ == rows_not_in(old(self)@, state.cwd@).push(
                stamped(state@, r.0@, final(self)@.last().created_at),
            ),
            chars_of_all(r.1@) == ids_in(old(self)@, state.cwd@),
    {
        let ghost s = self@;
        let ghost cwd = state.cwd@;
        let mut kept: Vec<NotifState> = Vec::new();
        let mut removed: Vec<String> = Vec::new();
        let mut i: usize = 0;
        while i < self.inner.len()
            invariant
                s == self@,
                cwd == state.cwd@,
                i <= self.inner.len(),
                views_of(kept@) == rows_not_in(s.take(i as int), cwd),
                chars_of_all(removed@) == ids_in(s.take(i as int), cwd),
            decreases self.inner.len() - i,
        {
            proof {
                assert(s.take(i + 1).drop_last() =~= s.take(i as int));
                reveal_with_fuel(Seq::<_>::filter, 1);
            }
            let same = str_eq(self.inner[i].cwd.as_str(), state.cwd.as_str());
            proof {
                lemma_take_succ(s, i as int);
                s.take(i as int).lemma_filter_push(s[i as int], |n: NotifView| n.cwd == cwd);
                s.take(i as int).lemma_filter_push(s[i as int], |n: NotifView| n.cwd != cwd);
                assert(self.inner@[i as int]@ == s[i as int]);
            }
            if same {
                let x = self.inner[i].id.clone();
                proof {
                    removed@.lemma_push_map_commute(|x: String| x@, x);
                    rows_in(s.take(i as int), cwd).lemma_push_map_commute(|n: NotifView| n.id, s[i as int]);
                }
                removed.push(x);
            } else {
                let n = self.inner[i].clone();
                proof {
                    kept@.lemma_push_map_commute(|n: NotifState| n@, n);
                }
                kept.push(n);
            }
            i = i + 1;
        }
        proof {
            assert(s.take(self.inner.len() as int) =~= s);
        }
        let mut state = state;
        state.id = new_notif_id();
        state.created_at = millis_since(&self.epoch);
        let id = state.id.clone();
        kept.push(state);
        self.inner = kept;
        proof {
            assert(self@ =~= rows_not_in(s, cwd).push(stamped(state@, id@, self@.last().created_at)));
        }
        (id, removed)
    }

    /// Removes and returns the first row with identifier `id`, if there is one.
    pub fn remove(&mut self, id: &str) -> (r: Option<NotifState>)
        ensures
            r is None <==> lacks_id(old(self)@, id@),
            r is None ==> final(self)@ == old(self)@,
            r matches Some(n) ==> exists|i: int|
                first_with_id(old(self)@, id@, i) && n@ == old(self)@[i] && final(self)@
                    == old(self)@.remove(i),
    {
        let ghost s = self@;
        let mut i: usize = 0;
        while i < self.inner.len()
            invariant
                s == self@,
                s == old(self)@,
                i <= self.inner.len(),
                forall|j: int| 0 <= j < i ==> (#[trigger] s[j]).id != id@,
            decreases self.inner.len() - i,
        {
            if str_eq(self.inner[i].id.as_str(), id) {
                proof {
                    assert(s[i as int].id == self.inner@[i as int].id@);
                }
                let n = self.inner.remove(i);
                proof {
                    assert(first_with_id(s, id@, i as int));
                    assert(self@ =~= s.remove(i as int));
                }
                return Some(n);
            }
            i = i + 1;
        }
        None
    }

    /// A copy of the first row with identifier `id`, if there is one.
    pub fn get(&self, id: &str) -> (r: Option<NotifState>)
        ensures
            r is None <==> lacks_id(self@, id@),
            r matches Some(n) ==> exists|i: int| first_with_id(self@, id@, i) && n@ == self@[i],
    {
        let mut i: usize = 0;
        while i < self.inner.len()
            invariant
                i <= self.inner.len(),
                forall|j: int| 0 <= j < i ==> (#[trigger] self@[j]).id != id@,
            decreases self.inner.len() - i,
        {
            if str_eq(self.inner[i].id.as_str(), id) {
                let n = self.inner[i].clone();
                proof {
                    assert(first_with_id(self@, id@, i as int));
                }
                return Some(n);
            }
            i = i + 1;
        }
        None
    }

    /// A copy of every row, in order.
    pub fn list(&self) -> (r: Vec<NotifState>)
        ensures
            views_of(r@) == self@,
    {
        let mut out: Vec<NotifState> = Vec::new();
        let mut i: usize = 0;
        while i < self.inner.len()
            invariant
                i <= self.inner.len(),
                views_of(out@) == self@.take(i as int),
            decreases self.inner.len() - i,
        {
            let n = self.inner[i].clone();
            proof {
                out@.lemma_push_map_commute(|n: NotifState| n@, n);
                lemma_take_succ(self@, i as int);
            }
            out.push(n);
            i = i + 1;
        }
        proof {
            assert(self@.take(self.inner.len() as int) =~= self@);
        }
        out
    }

    pub fn len(&self) -> (r: usize)
        ensures
            r == self@.len(),
    {
        self.inner.len()
    }
}

} // verus!
