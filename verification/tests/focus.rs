use claude_overlay::focus_win32::{
    key_flags, key_strokes, window_class_for, window_matches, KeyStroke, CLASS_VSCODE, CLASS_WT,
    VK_RETURN,
};
use claude_overlay::store::SourceType;

#[test]
fn typing_text_presses_and_releases_each_char() {
    let k = key_strokes("y\n");
    assert_eq!(
        k,
        vec![
            KeyStroke { vk: 0, scan: 'y' as u16, up: false },
            KeyStroke { vk: 0, scan: 'y' as u16, up: true },
            KeyStroke { vk: VK_RETURN, scan: 0, up: false },
            KeyStroke { vk: VK_RETURN, scan: 0, up: true },
        ]
    );
    assert_eq!(key_strokes("\u{1b}").len(), 2);
    assert!(key_strokes("").is_empty());
}

#[test]
fn key_flags_combine_unicode_and_keyup() {
    assert_eq!(key_flags(KeyStroke { vk: 0, scan: 65, up: false }), 0x0004);
    assert_eq!(key_flags(KeyStroke { vk: 0, scan: 65, up: true }), 0x0006);
    assert_eq!(key_flags(KeyStroke { vk: VK_RETURN, scan: 0, up: true }), 0x0002);
    assert_eq!(key_flags(KeyStroke { vk: VK_RETURN, scan: 0, up: false }), 0);
}

#[test]
fn window_match_checks_class_and_title() {
    assert!(window_matches(Some(CLASS_WT), "trading", "Cascadia_Hosting_Window_Class", "bash in TRADING"));
    assert!(!window_matches(Some(CLASS_WT), "trading", "Chrome_WidgetWin_1", "bash in TRADING"));
    assert!(window_matches(None, "trading", "Anything", "Trading - Code"));
    assert!(!window_matches(Some(CLASS_VSCODE), "trading", "Chrome_WidgetWin_1", "other"));
}

#[test]
fn window_class_per_source() {
    assert_eq!(window_class_for(SourceType::Wt), Some(CLASS_WT));
    assert_eq!(window_class_for(SourceType::Vscode), Some(CLASS_VSCODE));
    assert_eq!(window_class_for(SourceType::Unknown), None);
}
