//! The overlay's decisions: the popover's contents, how a yes/no answer is typed into
//! the source terminal, which window titles identify that terminal, and how a
//! multi-choice answer is written back.

use vstd::prelude::*;

use crate::focus_win32::{class_of, window_class_for};
use crate::input_spec::{no_keys, yes_keys, Choice, Delivery, InputModel, InputSpec};
use crate::store::{chars_of_all, lemma_take_succ, opt_chars, NotifState, NotifView, SourceType};
use crate::text::{str_eq, to_lowercase, unicode_lowercase};
use vstd::string::StringExecFns;

verus! {

/// What the popover shows: the options of one notification.
#[derive(Debug)]
pub struct PopoverData {
    pub notif_id: String,
    pub items: Vec<Choice>,
    pub multi_select: bool,
    pub allow_other: bool,
}

/// Whether the popover must close because notification `dismissed` went away: it is
/// open and shows that notification.
pub fn popover_closes(current: &Option<PopoverData>, dismissed: &str) -> (r: bool)
    ensures
        r == (current matches Some(d) && d.notif_id@ == dismissed@),
{
    match current {
        Some(d) => str_eq(d.notif_id.as_str(), dismissed),
        None => false,
    }
}

/// The answers of a multi-choice question, joined with ", ".
pub open spec fn joined(s: Seq<Seq<char>>) -> Seq<char>
    decreases s.len(),
{
    if s.len() == 0 {
        Seq::empty()
    } else if s.len() == 1 {
        s[0]
    } else {
        joined(s.drop_last()) + ", "@ + s.last()
    }
}

/// The answers of a multi-choice question, joined with ", ".
pub fn join_answers(answers: &Vec<String>) -> (r: String)
    ensures
        r@ == joined(chars_of_all(answers@)),
{
    let ghost s = chars_of_all(answers@);
    let mut out = String::new();
    let mut i: usize = 0;
    while i < answers.len()
        invariant
            s == chars_of_all(answers@),
            i <= answers.len(),
            out@ == joined(s.take(i as int)),
        decreases answers.len() - i,
    {
        proof {
            lemma_take_succ(s, i as int);
            assert(s.take(i + 1).drop_last() == s.take(i as int));
        }
        if i != 0 {
            out.append(", ");
        }
        out.append(answers[i].as_str());
        proof {
            if i == 0 {
                assert(s.take(1) =~= seq![s[0]]);
                assert(out@ =~= joined(s.take(1)));
            } else {
                assert(out@ =~= joined(s.take(i + 1)));
            }
        }
        i = i + 1;
    }
    proof {
        assert(s.take(answers.len() as int) =~= s);
    }
    out
}

/// The keystrokes that answer a yes/no row typed into its terminal: `yes` for the
/// answer "yes", `no` for any other answer. Only a yes/no row with keystroke delivery
/// is answered this way.
pub open spec fn typed_answer(input: InputModel, answer: Seq<char>) -> Option<Seq<char>> {
    match input {
        InputModel::YesNo { format, delivery: Delivery::Keystroke } => Some(
            if answer == "yes"@ {
                yes_keys(format)
            } else {
                no_keys(format)
            },
        ),
        _ => None,
    }
}

/// The keystrokes that answer row `n` with `answer`, if the row is answered by typing.
pub fn answer_keys(n: &NotifState, answer: &str) -> (r: Option<&'static str>)
    ensures
        match r {
            Some(t) => typed_answer(n@.input, answer@) == Some(t@),
            None => typed_answer(n@.input, answer@) is None,
        },
{
    match &n.input {
        InputSpec::YesNo { format, delivery: Delivery::Keystroke } => {
            if str_eq(answer, "yes") {
                Some(format.yes_text())
            } else {
                Some(format.no_text())
            }
        },
        _ => None,
    }
}

/// A terminal of a VS Code window, as the extension that owns it identifies it.
pub struct TerminalTarget {
    pub ext_id: String,
    pub cwd: String,
    /// Shell PID, 0 when unknown.
    pub pid: u32,
}

/// The VS Code terminal of row `v`: its target extension, working directory and shell PID
/// (0 when unknown); none unless the row comes from VS Code and has a target.
pub open spec fn terminal_target_of(v: NotifView, t: Option<TerminalTarget>) -> bool {
    if v.source_type == SourceType::Vscode && v.target_ext_id is Some {
        t matches Some(x) && x.ext_id@ == v.target_ext_id->0 && x.cwd@ == v.cwd && x.pid == match v.shell_pid {
            Some(p) => p,
            None => 0u32,
        }
    } else {
        t is None
    }
}

/// The VS Code terminal to which commands about row `n` go, if any.
pub fn terminal_target(n: &NotifState) -> (r: Option<TerminalTarget>)
    ensures
        terminal_target_of(n@, r),
{
    if n.source_type == SourceType::Vscode {
        match &n.target_ext_id {
            Some(id) => Some(
                TerminalTarget {
                    ext_id: id.clone(),
                    cwd: n.cwd.clone(),
                    pid: match n.shell_pid {
                        Some(p) => p,
                        None => 0,
                    },
                },
            ),
            None => None,
        }
    } else {
        None
    }
}

/// How to bring a row's terminal to the front: the VS Code terminal to reveal, and the
/// window to raise (by class and lower-cased title needle).
pub struct FocusPlan {
    pub terminal: Option<TerminalTarget>,
    pub window_class: Option<&'static str>,
    pub needle: String,
}

/// How to bring the terminal of row `n` to the front.
pub fn plan_focus(n: &NotifState) -> (r: FocusPlan)
    ensures
        terminal_target_of(n@, r.terminal),
        match r.window_class {
            Some(c) => class_of(n.source_type) == Some(c@),
            None => class_of(n.source_type) is None,
        },
        r.needle@ == unicode_lowercase(n.source_basename@),
{
    FocusPlan {
        terminal: terminal_target(n),
        window_class: window_class_for(n.source_type),
        needle: to_lowercase(n.source_basename.as_str()),
    }
}


/// One step up a working directory: the name of the directory reached, and the name of
/// its parent (absent at a root or for a name that is not a plain component).
pub struct AncestorName {
    pub name: Option<String>,
    pub parent_name: Option<String>,
}

/// The view of an ancestor step: both names as character sequences.
pub open spec fn step_view(a: AncestorName) -> (Option<Seq<char>>, Option<Seq<char>>) {
    (opt_chars(a.name), opt_chars(a.parent_name))
}

/// The views of a sequence of ancestor steps.
pub open spec fn steps_view(v: Seq<AncestorName>) -> Seq<(Option<Seq<char>>, Option<Seq<char>>)> {
    v.map_values(|a: AncestorName| step_view(a))
}

/// Directory names shared by unrelated projects; climbing stops at them.
pub open spec fn generic_dir(lc: Seq<char>) -> bool {
    ||| lc == "home"@
    ||| lc == "users"@
    ||| lc == "code"@
    ||| lc == "src"@
    ||| lc == "documents"@
    ||| lc == "dev"@
    ||| lc == "projects"@
    ||| lc == "workspace"@
    ||| lc == "workspaces"@
    ||| lc == "repos"@
    ||| lc == "tmp"@
    ||| lc == "var"@
    ||| lc == "etc"@
    ||| lc == "mnt"@
}

/// A directory directly under a home root: it names a user, so climbing stops there.
pub open spec fn user_profile_parent(parent: Option<Seq<char>>) -> bool {
    match parent {
        Some(p) => unicode_lowercase(p) == "home"@ || unicode_lowercase(p) == "users"@,
        None => false,
    }
}

/// The most title needles a search tries.
pub const MAX_CANDIDATES: usize = 4;

/// Title needles from the ancestor steps `steps`, appended to `out`: each step contributes
/// its lower-cased name, unless that is already present; a step without a name is skipped;
/// climbing stops at a generic directory, at a user's profile directory, or once there are
/// `MAX_CANDIDATES` needles.
pub open spec fn climb(out: Seq<Seq<char>>, steps: Seq<(Option<Seq<char>>, Option<Seq<char>>)>) -> Seq<
    Seq<char>,
>
    decreases steps.len(),
{
    if steps.len() == 0 {
        out
    } else {
        let rest = steps.drop_first();
        match steps[0].0 {
            None => climb(out, rest),
            Some(name) => {
                let lc = unicode_lowercase(name);
                if generic_dir(lc) || user_profile_parent(steps[0].1) {
                    out
                } else if out.contains(lc) {
                    climb(out, rest)
                } else if out.len() + 1 >= MAX_CANDIDATES {
                    out.push(lc)
                } else {
                    climb(out.push(lc), rest)
                }
            },
        }
    }
}

/// The title needles for a terminal: its lower-cased basename (when not empty), then the
/// lower-cased names met climbing its working directory.
pub open spec fn title_candidates(basename: Seq<char>, steps: Seq<(Option<Seq<char>>, Option<Seq<char>>)>) -> Seq<
    Seq<char>,
> {
    climb(
        if basename.len() == 0 {
            Seq::empty()
        } else {
            seq![unicode_lowercase(basename)]
        },
        steps,
    )
}

/// Climbing keeps the needles found so far, in front and in order; it never repeats a
/// needle and never yields more than `MAX_CANDIDATES`.
proof fn lemma_climb(out: Seq<Seq<char>>, steps: Seq<(Option<Seq<char>>, Option<Seq<char>>)>)
    requires
        out.no_duplicates(),
        out.len() < MAX_CANDIDATES,
    ensures
        climb(out, steps).no_duplicates(),
        climb(out, steps).len() <= MAX_CANDIDATES,
        out.len() <= climb(out, steps).len(),
        climb(out, steps).take(out.len() as int) == out,
    decreases steps.len(),
{
    if steps.len() > 0 {
        let rest = steps.drop_first();
        match steps[0].0 {
            None => lemma_climb(out, rest),
            Some(name) => {
                let lc = unicode_lowercase(name);
                if generic_dir(lc) || user_profile_parent(steps[0].1) {
                    assert(out.take(out.len() as int) =~= out);
                } else if out.contains(lc) {
                    lemma_climb(out, rest);
                } else {
                    let o2 = out.push(lc);
                    assert(o2.no_duplicates()) by {
                        assert forall|i: int, j: int| 0 <= i < o2.len() && 0 <= j < o2.len() && i != j implies o2[i] != o2[j] by {
                            if i == out.len() {
                                assert(o2[j] == out[j]);
                                assert(out.contains(out[j]));
                            } else if j == out.len() {
                                assert(o2[i] == out[i]);
                                assert(out.contains(out[i]));
                            }
                        }
                    }
                    if out.len() + 1 >= MAX_CANDIDATES {
                        assert(o2.take(out.len() as int) =~= out);
                    } else {
                        lemma_climb(o2, rest);
                        let c = climb(o2, rest);
                        assert(c.take(out.len() as int) =~= c.take(o2.len() as int).take(out.len() as int));
                        assert(o2.take(out.len() as int) =~= out);
                    }
                }
            },
        }
    } else {
        assert(out.take(out.len() as int) =~= out);
    }
}

/// The title needles never repeat and are at most `MAX_CANDIDATES`; when the basename is
/// not empty, the first needle is the lower-cased basename.
pub proof fn law_title_candidates(basename: Seq<char>, steps: Seq<(Option<Seq<char>>, Option<Seq<char>>)>)
    ensures
        title_candidates(basename, steps).no_duplicates(),
        title_candidates(basename, steps).len() <= MAX_CANDIDATES,
        basename.len() != 0 ==> title_candidates(basename, steps).len() >= 1
            && title_candidates(basename, steps)[0] == unicode_lowercase(basename),
{
    let init = if basename.len() == 0 {
        Seq::<Seq<char>>::empty()
    } else {
        seq![unicode_lowercase(basename)]
    };
    lemma_climb(init, steps);
    if basename.len() != 0 {
        let c = climb(init, steps);
        assert(c.take(1)[0] == c[0]);
    }
}

/// One of the directory names shared by unrelated projects, spelled out.
pub open spec fn shared_root(x: Seq<char>) -> bool {
    x == "home"@ || x == "users"@ || x == "code"@ || x == "src"@ || x == "documents"@ || x == "dev"@
        || x == "projects"@ || x == "workspace"@ || x == "workspaces"@ || x == "repos"@ || x == "tmp"@
        || x == "var"@ || x == "etc"@ || x == "mnt"@
}

/// Climbing appends only names that are not shared roots, and stops at a step whose
/// lower-cased name is one.
proof fn lemma_climb_avoids_roots(out: Seq<Seq<char>>, steps: Seq<(Option<Seq<char>>, Option<Seq<char>>)>)
    ensures
        out.len() <= climb(out, steps).len(),
        forall|i: int| out.len() <= i < climb(out, steps).len() ==> !shared_root(#[trigger] climb(out, steps)[i]),
        forall|i: int| 0 <= i < out.len() ==> climb(out, steps)[i] == out[i],
    decreases steps.len(),
{
    if steps.len() > 0 {
        let rest = steps.drop_first();
        match steps[0].0 {
            None => lemma_climb_avoids_roots(out, rest),
            Some(name) => {
                let lc = unicode_lowercase(name);
                if generic_dir(lc) || user_profile_parent(steps[0].1) {
                } else if out.contains(lc) {
                    lemma_climb_avoids_roots(out, rest);
                } else if out.len() + 1 >= MAX_CANDIDATES {
                    assert(!shared_root(lc));
                    assert(climb(out, steps) == out.push(lc));
                } else {
                    assert(!shared_root(lc));
                    let o2 = out.push(lc);
                    lemma_climb_avoids_roots(o2, rest);
                    let c = climb(out, steps);
                    assert(c == climb(o2, rest));
                    assert forall|i: int| out.len() <= i < c.len() implies !shared_root(#[trigger] c[i]) by {
                        if i == out.len() {
                            assert(c[i] == o2[i]);
                        }
                    }
                    assert forall|i: int| 0 <= i < out.len() implies c[i] == out[i] by {
                        assert(c[i] == o2[i]);
                    }
                }
            },
        }
    }
}

/// No title needle after the basename is a shared root name (home, users, code, src,
/// documents, dev, projects, workspace, workspaces, repos, tmp, var, etc, mnt), and a step
/// whose lower-cased name is one of them ends the climb: nothing from it or above it is a
/// needle.
pub proof fn law_shared_roots_never_needles(
    basename: Seq<char>,
    steps: Seq<(Option<Seq<char>>, Option<Seq<char>>)>,
)
    ensures
        forall|i: int|
            (if basename.len() == 0 {
                0int
            } else {
                1int
            }) <= i < title_candidates(basename, steps).len() ==> !shared_root(
                #[trigger] title_candidates(basename, steps)[i],
            ),
        steps.len() > 0 && steps[0].0 is Some && shared_root(unicode_lowercase(steps[0].0->0))
            ==> title_candidates(basename, steps) == (if basename.len() == 0 {
            Seq::<Seq<char>>::empty()
        } else {
            seq![unicode_lowercase(basename)]
        }),
{
    let init = if basename.len() == 0 {
        Seq::<Seq<char>>::empty()
    } else {
        seq![unicode_lowercase(basename)]
    };
    lemma_climb_avoids_roots(init, steps);
}

/// The directory holding the terminal counts unless it is a shared root or a user's
/// profile: when its lower-cased name is not a shared root and differs from the basename's,
/// and its parent is not `home` or `Users` (in any case), that name is the second needle.
/// When its parent is such a profile parent, the basename is the only needle.
pub proof fn law_plain_parent_is_needle(basename: Seq<char>, steps: Seq<(Option<Seq<char>>, Option<Seq<char>>)>)
    requires
        basename.len() != 0,
        steps.len() > 0,
        steps[0].0 is Some,
    ensures
        !shared_root(unicode_lowercase(steps[0].0->0)) && unicode_lowercase(steps[0].0->0) != unicode_lowercase(
            basename,
        ) && (steps[0].1 is None || (unicode_lowercase(steps[0].1->0) != "home"@ && unicode_lowercase(
            steps[0].1->0,
        ) != "users"@)) ==> title_candidates(basename, steps).len() >= 2 && title_candidates(basename, steps)[1]
            == unicode_lowercase(steps[0].0->0),
        steps[0].1 is Some && (unicode_lowercase(steps[0].1->0) == "home"@ || unicode_lowercase(steps[0].1->0)
            == "users"@) ==> title_candidates(basename, steps) == seq![unicode_lowercase(basename)],
{
    let b = unicode_lowercase(basename);
    let lc = unicode_lowercase(steps[0].0->0);
    let out = seq![b];
    let rest = steps.drop_first();
    if !shared_root(lc) && lc != b && (steps[0].1 is None || (unicode_lowercase(steps[0].1->0) != "home"@
        && unicode_lowercase(steps[0].1->0) != "users"@)) {
        assert(!out.contains(lc)) by {
            if out.contains(lc) {
                let j = choose|j: int| 0 <= j < out.len() && out[j] == lc;
                assert(out[j] == b);
            }
        }
        let o2 = out.push(lc);
        assert(o2.no_duplicates()) by {
            assert(o2[0] == b);
            assert(o2[1] == lc);
        }
        assert(climb(out, steps) == climb(o2, rest));
        lemma_climb(o2, rest);
        let c = climb(o2, rest);
        assert(c.take(2)[1] == c[1]);
    }
}

fn is_generic_dir(lc: &str) -> (r: bool)
    ensures
        r == generic_dir(lc@),
{
    str_eq(lc, "home") || str_eq(lc, "users") || str_eq(lc, "code") || str_eq(lc, "src") || str_eq(
        lc,
        "documents",
    ) || str_eq(lc, "dev") || str_eq(lc, "projects") || str_eq(lc, "workspace") || str_eq(
        lc,
        "workspaces",
    ) || str_eq(lc, "repos") || str_eq(lc, "tmp") || str_eq(lc, "var") || str_eq(lc, "etc")
        || str_eq(lc, "mnt")
}

fn is_user_profile_parent(parent: &Option<String>) -> (r: bool)
    ensures
        r == user_profile_parent(opt_chars(*parent)),
{
    match parent {
        Some(p) => {
            let lc = to_lowercase(p.as_str());
            str_eq(lc.as_str(), "home") || str_eq(lc.as_str(), "users")
        },
        None => false,
    }
}

fn contains_string(v: &Vec<String>, x: &str) -> (r: bool)
    ensures
        r == chars_of_all(v@).contains(x@),
{
    let mut i: usize = 0;
    while i < v.len()
        invariant
            i <= v.len(),
            forall|j: int| 0 <= j < i ==> v@[j]@ != x@,
        decreases v.len() - i,
    {
        if str_eq(v[i].as_str(), x) {
            proof {
                assert(chars_of_all(v@)[i as int] == x@);
            }
            return true;
        }
        i = i + 1;
    }
    proof {
        if chars_of_all(v@).contains(x@) {
            let j = choose|j: int| 0 <= j < chars_of_all(v@).len() && chars_of_all(v@)[j] == x@;
            assert(v@[j]@ == x@);
        }
    }
    false
}

/// The title needles for a terminal whose basename is `source_basename`, given the
/// ancestor steps of its working directory, starting with the directory itself.
pub fn select_title_candidates(source_basename: &str, steps: &Vec<AncestorName>) -> (r: Vec<String>)
    ensures
        chars_of_all(r@) == title_candidates(source_basename@, steps_view(steps@)),
{
    let ghost all = steps_view(steps@);
    let mut out: Vec<String> = Vec::new();
    if !source_basename.is_empty() {
        out.push(to_lowercase(source_basename));
    }
    proof {
        assert(chars_of_all(out@) =~= (if source_basename@.len() == 0 {
            Seq::<Seq<char>>::empty()
        } else {
            seq![unicode_lowercase(source_basename@)]
        }));
    }
    let ghost goal = title_candidates(source_basename@, all);
    proof {
        assert(all.skip(0) =~= all);
    }
    let mut i: usize = 0;
    while i < steps.len()
        invariant
            all == steps_view(steps@),
            i <= steps.len(),
            goal == title_candidates(source_basename@, all),
            goal == climb(chars_of_all(out@), all.skip(i as int)),
            out@.len() < MAX_CANDIDATES,
        decreases steps.len() - i,
    {
        let ghost rest = all.skip(i as int);
        proof {
            assert(rest.len() > 0);
            assert(rest[0] == step_view(steps@[i as int]));
            assert(rest.drop_first() =~= all.skip(i + 1));
        }
        match &steps[i].name {
            None => {},
            Some(name) => {
                let lc = to_lowercase(name.as_str());
                proof {
                    assert(rest[0].0 == Some(name@));
                    assert(rest[0].1 == opt_chars(steps@[i as int].parent_name));
                }
                if is_generic_dir(lc.as_str()) || is_user_profile_parent(&steps[i].parent_name) {
                    return out;
                }
                if !contains_string(&out, lc.as_str()) {
                    proof {
                        out@.lemma_push_map_commute(|x: String| x@, lc);
                        assert(chars_of_all(out@.push(lc)) == chars_of_all(out@).push(lc@));
                    }
                    out.push(lc);
                    if out.len() >= MAX_CANDIDATES {
                        return out;
                    }
                }
            },
        }
        i = i + 1;
    }
    proof {
        assert(all.skip(steps.len() as int) =~= Seq::<(Option<Seq<char>>, Option<Seq<char>>)>::empty());
    }
    out
}

/// Calls `std::path::Path::file_name` on `p` and reads the name as UTF-8. What it returns
/// depends on the platform's path syntax, so nothing is stated of it.
#[verifier::external_body]
fn path_file_name(p: &str) -> (r: Option<String>) {
    std::path::Path::new(p).file_name().and_then(|n| n.to_str()).map(|n| n.to_string())
}

/// Calls `std::path::Path::parent` on `p` and reads it as UTF-8. The parent is `p` without
/// its final component, so it is shorter than `p`; its exact text depends on the
/// platform's path syntax.
#[verifier::external_body]
fn path_parent(p: &str) -> (r: Option<String>)
    ensures
        r matches Some(q) ==> q@.len() < p@.len(),
{
    std::path::Path::new(p).parent().and_then(|q| q.to_str()).map(|q| q.to_string())
}

/// The ancestor steps of `cwd`: the path itself, then each parent in turn, each with its
/// name and the name of its parent.
fn ancestor_names(cwd: &str) -> (r: Vec<AncestorName>)
    ensures
        r@.len() >= 1,
{
    let mut out: Vec<AncestorName> = Vec::new();
    let mut cur: String = cwd.to_owned();
    loop
        decreases cur@.len(),
    {
        let name = path_file_name(cur.as_str());
        let parent = path_parent(cur.as_str());
        match parent {
            Some(q) => {
                let parent_name = path_file_name(q.as_str());
                out.push(AncestorName { name, parent_name });
                cur = q;
            },
            None => {
                out.push(AncestorName { name, parent_name: None });
                return out;
            },
        }
    }
}

/// Title needles to find the window of a terminal, most specific first: the terminal's
/// basename, then the names met climbing `cwd`, stopping at generic shared roots and at
/// user profile directories, at most `MAX_CANDIDATES` of them.
pub fn derive_title_candidates(cwd: &str, source_basename: &str) -> (r: Vec<String>)
    ensures
        exists|steps: Seq<(Option<Seq<char>>, Option<Seq<char>>)>|
            chars_of_all(r@) == title_candidates(source_basename@, steps),
        chars_of_all(r@).no_duplicates(),
        r@.len() <= MAX_CANDIDATES,
        source_basename@.len() != 0 ==> r@.len() >= 1 && r@[0]@ == unicode_lowercase(source_basename@),
{
    let steps = ancestor_names(cwd);
    let r = select_title_candidates(source_basename, &steps);
    proof {
        law_title_candidates(source_basename@, steps_view(steps@));
        if source_basename@.len() != 0 {
            assert(chars_of_all(r@)[0] == r@[0]@);
        }
    }
    r
}

} // verus!
