use pasteboost::hotkey::{is_function_key_name, is_modifier_name, normalize_hotkey, valid_hotkey};

#[test]
fn default_hotkeys_are_accepted() {
    assert!(valid_hotkey("Ctrl+Shift+V"));
    assert!(valid_hotkey("Super+F1"));
}

#[test]
fn hotkey_needs_a_modifier() {
    assert!(!valid_hotkey("V"));
    assert!(!valid_hotkey(""));
    assert!(!valid_hotkey("+++"));
    assert!(!valid_hotkey("Shift"));
}

#[test]
fn hotkey_modifiers_in_any_case() {
    assert!(valid_hotkey("CTRL+alt+x"));
    assert!(valid_hotkey("control+Meta+9"));
    assert!(valid_hotkey(" ctrl + shift + v "));
    assert!(valid_hotkey("Ctrl++V"));
}

#[test]
fn hotkey_rejects_unknown_modifier() {
    assert!(!valid_hotkey("Win+V"));
    assert!(!valid_hotkey("Hyper+V"));
    assert!(!valid_hotkey("V+Ctrl"));
}

#[test]
fn hotkey_final_key_forms() {
    assert!(valid_hotkey("Alt+f12"));
    assert!(valid_hotkey("Alt+F10"));
    assert!(!valid_hotkey("Alt+F13"));
    assert!(!valid_hotkey("Alt+F0"));
    assert!(!valid_hotkey("Alt+Enter"));
    assert!(!valid_hotkey("Alt+é"));
    assert!(!valid_hotkey("Alt+-"));
    assert!(valid_hotkey("Alt+7"));
}

#[test]
fn hotkey_whitespace_is_trimmed_with_unicode_rules() {
    assert!(valid_hotkey("Ctrl+\u{3000}V\u{00A0}"));
    assert!(!valid_hotkey("Ctrl+V\u{200B}"));
}

#[test]
fn normalize_rewrites_aliases() {
    assert_eq!(normalize_hotkey("win+v"), "Super+v");
    assert_eq!(normalize_hotkey("Windows + Shift + S"), "Super+Shift+S");
    assert_eq!(normalize_hotkey("META+F1"), "Super+F1");
    assert_eq!(normalize_hotkey("control+alt+del"), "Ctrl+alt+del");
    assert_eq!(normalize_hotkey("  ctrl  +  +shift+ v "), "ctrl+shift+v");
    assert_eq!(normalize_hotkey(""), "");
    assert_eq!(normalize_hotkey(" + "), "");
}

#[test]
fn normalize_twice_changes_nothing() {
    for s in ["win+v", " control + x ", "Meta+Windows+F2", "a++b", "", "Super+F1"] {
        let once = normalize_hotkey(s);
        assert_eq!(normalize_hotkey(&once), once);
    }
}

#[test]
fn normalize_keeps_valid_hotkeys_valid() {
    for s in ["meta+v", "control+shift+F12", "Ctrl+Shift+V", " alt + 1 "] {
        assert!(valid_hotkey(s));
        assert!(valid_hotkey(&normalize_hotkey(s)));
    }
    assert!(!valid_hotkey("win+v"));
    assert!(valid_hotkey(&normalize_hotkey("win+v")));
}

#[test]
fn modifier_and_function_key_names() {
    for m in ["ctrl", "control", "shift", "alt", "super", "meta"] {
        assert!(is_modifier_name(m));
    }
    assert!(!is_modifier_name("Ctrl"));
    assert!(!is_modifier_name("win"));
    for k in 1..=12 {
        assert!(is_function_key_name(&format!("f{}", k)));
    }
    assert!(!is_function_key_name("f0"));
    assert!(!is_function_key_name("f13"));
    assert!(!is_function_key_name("F1"));
}
