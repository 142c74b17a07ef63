use pasteboost::settings::toggle_listening;
use pasteboost::settings::{
    check_shortcut_pair, plan_settings_change, prepare_settings, sanitize_settings, save_actions,
    undo_actions, SaveAction, SaveFailure, Settings, SettingsChange,
};

#[test]
fn default_settings_values() {
    let s = Settings::default();
    assert!(s.listening_enabled);
    assert!(!s.autostart_enabled);
    assert!(s.protect_sensitive);
    assert_eq!(s.hotkey, "Ctrl+Shift+V");
    assert_eq!(s.screenshot_hotkey, "Super+F1");
    assert_eq!(s.max_items, 500);
    assert_eq!(s.theme, "light");
    assert_eq!(s.language, "zh-CN");
}

#[test]
fn sanitize_normalizes_and_falls_back() {
    let mut s = Settings::default();
    s.hotkey = " control + meta + k ".to_string();
    s.screenshot_hotkey = "F1".to_string();
    s.max_items = 20;
    s.theme = "dark".to_string();
    let r = sanitize_settings(s);
    assert_eq!(r.hotkey, "Ctrl+Super+k");
    assert_eq!(r.screenshot_hotkey, "Super+F1");
    assert_eq!(r.max_items, 20);
    assert_eq!(r.theme, "dark");
}

#[test]
fn sanitize_repairs_invalid_panel_hotkey() {
    let mut s = Settings::default();
    s.hotkey = "".to_string();
    s.screenshot_hotkey = "win+shift+s".to_string();
    let r = sanitize_settings(s);
    assert_eq!(r.hotkey, "Ctrl+Shift+V");
    assert_eq!(r.screenshot_hotkey, "Super+shift+s");
}

#[test]
fn prepare_settings_accepts_and_normalizes() {
    let mut s = Settings::default();
    s.hotkey = "  windows + v ".to_string();
    s.screenshot_hotkey = "control+F2".to_string();
    s.autostart_enabled = true;
    let r = prepare_settings(s).ok().unwrap();
    assert_eq!(r.hotkey, "Super+v");
    assert_eq!(r.screenshot_hotkey, "Ctrl+F2");
    assert!(r.autostart_enabled);
}

#[test]
fn prepare_settings_rejects_bad_panel_hotkey() {
    let mut s = Settings::default();
    s.hotkey = "V".to_string();
    s.screenshot_hotkey = "nonsense".to_string();
    assert_eq!(
        prepare_settings(s).err().unwrap(),
        "快捷键必须包含至少一个修饰键，例如 Ctrl+Shift+V"
    );
}

#[test]
fn prepare_settings_rejects_bad_screenshot_hotkey() {
    let mut s = Settings::default();
    s.screenshot_hotkey = "Ctrl+Enter".to_string();
    assert_eq!(
        prepare_settings(s).err().unwrap(),
        "截图快捷键必须包含至少一个修饰键，例如 Super+F1"
    );
}

#[test]
fn prepare_settings_rejects_equal_hotkeys() {
    let mut s = Settings::default();
    s.hotkey = "ctrl+shift+v".to_string();
    s.screenshot_hotkey = "CTRL+SHIFT+V".to_string();
    assert_eq!(prepare_settings(s).err().unwrap(), "截图快捷键不能和呼出快捷键相同");
}

#[test]
fn shortcut_pair_check() {
    assert!(check_shortcut_pair("Ctrl+Shift+V", "Super+F1").is_ok());
    assert_eq!(
        check_shortcut_pair("Ctrl+V", "ctrl+v").err().unwrap(),
        "截图快捷键不能和呼出快捷键相同"
    );
    assert!(check_shortcut_pair("Ctrl+É", "Ctrl+é").is_ok());
}

#[test]
fn settings_change_plan() {
    let previous = Settings::default();
    let mut next = Settings::default();
    let c = plan_settings_change(&previous, &next, false);
    assert!(!c.autostart_changed && !c.hotkey_changed);
    next.autostart_enabled = true;
    next.screenshot_hotkey = "Super+F2".to_string();
    let c = plan_settings_change(&previous, &next, false);
    assert!(c.autostart_changed && c.hotkey_changed);
    let c = plan_settings_change(&previous, &next, true);
    assert!(!c.autostart_changed);
}

#[test]
fn save_steps_in_order() {
    let both = SettingsChange { autostart_changed: true, hotkey_changed: true };
    assert_eq!(
        save_actions(&both, true),
        vec![
            SaveAction::SetAutostart(true),
            SaveAction::UnregisterShortcuts,
            SaveAction::RegisterNewShortcuts,
            SaveAction::StoreSettings
        ]
    );
    let none = SettingsChange { autostart_changed: false, hotkey_changed: false };
    assert_eq!(save_actions(&none, false), vec![SaveAction::StoreSettings]);
}

#[test]
fn failed_save_undo_steps() {
    let both = SettingsChange { autostart_changed: true, hotkey_changed: true };
    assert_eq!(undo_actions(SaveFailure::AutostartSwitch, &both, false), vec![]);
    assert_eq!(
        undo_actions(SaveFailure::Unregister, &both, false),
        vec![SaveAction::SetAutostart(false)]
    );
    assert_eq!(
        undo_actions(SaveFailure::Register, &both, false),
        vec![SaveAction::RegisterPreviousShortcuts, SaveAction::SetAutostart(false)]
    );
    assert_eq!(undo_actions(SaveFailure::Serialize, &both, false), vec![]);
    assert_eq!(undo_actions(SaveFailure::Lock, &both, false), vec![]);
    assert_eq!(
        undo_actions(SaveFailure::Write, &both, true),
        vec![
            SaveAction::UnregisterShortcuts,
            SaveAction::RegisterPreviousShortcuts,
            SaveAction::SetAutostart(true)
        ]
    );
    let hotkeys_only = SettingsChange { autostart_changed: false, hotkey_changed: true };
    assert_eq!(
        undo_actions(SaveFailure::Write, &hotkeys_only, true),
        vec![SaveAction::UnregisterShortcuts, SaveAction::RegisterPreviousShortcuts]
    );
}

#[test]
fn pause_toggle_flips_and_twice_restores() {
    let mut s = Settings::default();
    s.theme = "dark".to_string();
    toggle_listening(&mut s);
    assert!(!s.listening_enabled);
    assert_eq!(s.theme, "dark");
    assert_eq!(s.hotkey, "Ctrl+Shift+V");
    toggle_listening(&mut s);
    assert!(s.listening_enabled);
    assert_eq!(s.theme, "dark");
}
