//! The decisions behind focusing a terminal window and typing into it: which window
//! class a source lives in, whether a window matches a title needle, and which
//! keyboard events type a piece of text.

use vstd::prelude::*;

use crate::store::SourceType;
use crate::text::{contains, eq_ascii_nocase, eq_ignore_ascii_case, occurs_in, to_lowercase, unicode_lowercase};

verus! {

/// Window class of Windows Terminal.
pub const CLASS_WT: &'static str = "CASCADIA_HOSTING_WINDOW_CLASS";

/// Window class of VS Code (an Electron window).
pub const CLASS_VSCODE: &'static str = "Chrome_WidgetWin_1";

/// Virtual-key code of the Enter key.
pub const VK_RETURN: u16 = 0x0d;

/// `KEYEVENTF_KEYUP`: the event releases the key.
pub const KEYEVENTF_KEYUP: u32 = 0x0002;

/// `KEYEVENTF_UNICODE`: the event types the character in its scan-code field.
pub const KEYEVENTF_UNICODE: u32 = 0x0004;

/// The window class in which a source's terminal lives, if it is known.
pub open spec fn class_of(src: SourceType) -> Option<Seq<char>> {
    match src {
        SourceType::Wt => Some("CASCADIA_HOSTING_WINDOW_CLASS"@),
        SourceType::Vscode => Some("Chrome_WidgetWin_1"@),
        SourceType::Unknown => None,
    }
}

/// The window class in which a source's terminal lives, if it is known.
pub fn window_class_for(src: SourceType) -> (r: Option<&'static str>)
    ensures
        match r {
            Some(c) => class_of(src) == Some(c@),
            None => class_of(src) is None,
        },
{
    match src {
        SourceType::Wt => Some("CASCADIA_HOSTING_WINDOW_CLASS"),
        SourceType::Vscode => Some("Chrome_WidgetWin_1"),
        SourceType::Unknown => None,
    }
}

/// A window with class `class` and title `title` is the one sought: its class passes the
/// filter (compared up to ASCII case) and its lower-cased title contains `needle`.
pub open spec fn window_fits(
    class_filter: Option<Seq<char>>,
    needle: Seq<char>,
    class: Seq<char>,
    title: Seq<char>,
) -> bool {
    &&& match class_filter {
        Some(f) => eq_ascii_nocase(class, f),
        None => true,
    }
    &&& occurs_in(unicode_lowercase(title), needle)
}

/// The characters of an optional string slice.
pub open spec fn opt_str(o: Option<&str>) -> Option<Seq<char>> {
    match o {
        Some(f) => Some(f@),
        None => None,
    }
}

/// Whether a window with class `class` and already lower-cased title `title_lc` passes
/// the class filter (up to ASCII case) and contains `needle` in its title.
pub fn window_matches_lowered(class_filter: Option<&str>, needle: &str, class: &str, title_lc: &str) -> (r:
    bool)
    ensures
        r == ((match opt_str(class_filter) {
            Some(f) => eq_ascii_nocase(class@, f),
            None => true,
        }) && occurs_in(title_lc@, needle@)),
{
    let class_ok = match class_filter {
        Some(f) => eq_ignore_ascii_case(class, f),
        None => true,
    };
    class_ok && contains(title_lc, needle)
}

/// Whether a visible window with this class and title is the one sought by a search for
/// the (already lower-cased) `needle` among windows of class `class_filter`.
pub fn window_matches(class_filter: Option<&str>, needle: &str, class: &str, title: &str) -> (r: bool)
    ensures
        r == window_fits(opt_str(class_filter), needle@, class@, title@),
{
    let title_lc = to_lowercase(title);
    window_matches_lowered(class_filter, needle, class, title_lc.as_str())
}

/// One synthesized keyboard event.
#[derive(Debug, Clone, Copy, PartialEq, Eq, Structural)]
pub struct KeyStroke {
    /// Virtual-key code, 0 for a Unicode character event.
    pub vk: u16,
    /// UTF-16 unit of a Unicode character event, 0 otherwise.
    pub scan: u16,
    /// Whether the event releases the key.
    pub up: bool,
}

/// The press and release that type `c`: Enter for a newline, otherwise a Unicode event
/// carrying the low 16 bits of the character's code.
pub open spec fn strokes_for(c: char) -> Seq<KeyStroke> {
    if c == '\n' {
        seq![
            KeyStroke { vk: VK_RETURN, scan: 0, up: false },
            KeyStroke { vk: VK_RETURN, scan: 0, up: true },
        ]
    } else {
        seq![
            KeyStroke { vk: 0, scan: (c as u32) as u16, up: false },
            KeyStroke { vk: 0, scan: (c as u32) as u16, up: true },
        ]
    }
}

/// The events that type `text`, character by character.
pub open spec fn strokes_of(text: Seq<char>) -> Seq<KeyStroke>
    decreases text.len(),
{
    if text.len() == 0 {
        Seq::empty()
    } else {
        strokes_of(text.drop_last()) + strokes_for(text.last())
    }
}

/// Typing text takes a press and a release per character, and a newline is typed as Enter.
pub proof fn law_two_events_per_char(text: Seq<char>)
    ensures
        strokes_of(text).len() == 2 * text.len(),
        forall|i: int| 0 <= i < text.len() && text[i] == '\n' ==> strokes_of(text)[2 * i] == (KeyStroke {
            vk: VK_RETURN,
            scan: 0,
            up: false,
        }) && strokes_of(text)[2 * i + 1] == (KeyStroke { vk: VK_RETURN, scan: 0, up: true }),
    decreases text.len(),
{
    if text.len() > 0 {
        let d = text.drop_last();
        law_two_events_per_char(d);
        assert forall|i: int| 0 <= i < text.len() && text[i] == '\n' implies strokes_of(text)[2 * i] == (KeyStroke {
            vk: VK_RETURN,
            scan: 0,
            up: false,
        }) && strokes_of(text)[2 * i + 1] == (KeyStroke { vk: VK_RETURN, scan: 0, up: true }) by {
            if i < d.len() {
                assert(d[i] == text[i]);
            }
        }
    }
}

/// Every character other than a newline is typed as a Unicode press then release: virtual
/// key 0, and the low 16 bits of the character's code as the scan code. No such character
/// is ever typed as Enter.
pub proof fn law_other_chars_typed_as_unicode(text: Seq<char>)
    ensures
        strokes_of(text).len() == 2 * text.len(),
        forall|i: int|
            0 <= i < text.len() && text[i] != '\n' ==> {
                &&& strokes_of(text)[2 * i] == (KeyStroke { vk: 0, scan: (text[i] as u32) as u16, up: false })
                &&& strokes_of(text)[2 * i + 1] == (KeyStroke { vk: 0, scan: (text[i] as u32) as u16, up: true })
                &&& strokes_of(text)[2 * i].vk != VK_RETURN
            },
    decreases text.len(),
{
    law_two_events_per_char(text);
    if text.len() > 0 {
        let d = text.drop_last();
        law_other_chars_typed_as_unicode(d);
        assert forall|i: int| 0 <= i < text.len() && text[i] != '\n' implies {
            &&& strokes_of(text)[2 * i] == (KeyStroke { vk: 0, scan: (text[i] as u32) as u16, up: false })
            &&& strokes_of(text)[2 * i + 1] == (KeyStroke { vk: 0, scan: (text[i] as u32) as u16, up: true })
            &&& strokes_of(text)[2 * i].vk != VK_RETURN
        } by {
            if i < d.len() {
                assert(d[i] == text[i]);
            }
        }
    }
}

fn low16(c: char) -> (r: u16)
    ensures
        r == (c as u32) as u16,
{
    let code: u32 = c as u32;
    code as u16
}

/// The keyboard events that type `text`.
pub fn key_strokes(text: &str) -> (r: Vec<KeyStroke>)
    ensures
        r@ == strokes_of(text@),
{
    let chars = crate::text::chars_of(text);
    let mut out: Vec<KeyStroke> = Vec::new();
    let mut i: usize = 0;
    while i < chars.len()
        invariant
            chars@ == text@,
            i <= chars.len(),
            out@ == strokes_of(chars@.take(i as int)),
        decreases chars.len() - i,
    {
        let c = chars[i];
        proof {
            crate::store::lemma_take_succ(chars@, i as int);
            assert(chars@.take(i + 1).drop_last() == chars@.take(i as int));
        }
        if c == '\n' {
            out.push(KeyStroke { vk: VK_RETURN, scan: 0, up: false });
            out.push(KeyStroke { vk: VK_RETURN, scan: 0, up: true });
        } else {
            let code = low16(c);
            out.push(KeyStroke { vk: 0, scan: code, up: false });
            out.push(KeyStroke { vk: 0, scan: code, up: true });
        }
        proof {
            assert(out@ =~= strokes_of(chars@.take(i + 1)));
        }
        i = i + 1;
    }
    proof {
        assert(chars@.take(chars.len() as int) =~= chars@);
    }
    out
}

/// The flag word of a keyboard event: Unicode when it carries a character, key-up when
/// it releases the key.
pub open spec fn flags_of(scan: u16, up: bool) -> int {
    (if scan != 0 { KEYEVENTF_UNICODE } else { 0 }) + (if up { KEYEVENTF_KEYUP } else { 0 })
}

/// The flag word of a keyboard event.
pub fn key_flags(k: KeyStroke) -> (r: u32)
    ensures
        r == flags_of(k.scan, k.up),
{
    let mut flags: u32 = 0;
    if k.scan != 0 {
        flags = flags + KEYEVENTF_UNICODE;
    }
    if k.up {
        flags = flags + KEYEVENTF_KEYUP;
    }
    flags
}

} // verus!
