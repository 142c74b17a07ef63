use vstd::prelude::*;
use crate::hotkey::{
    default_hotkeys_are_valid, default_panel_hotkey, default_screenshot_hotkey, hotkey_is_valid,
    normalize_hotkey, normalize_is_idempotent, normalized_hotkey, valid_hotkey,
};
use crate::text::{chars_of, eq_ignore_ascii_case, eq_ignore_ascii_case_spec, string_of, trim_chars, trimmed};

verus! {

/// The user's preferences.
pub struct Settings {
    pub listening_enabled: bool,
    pub autostart_enabled: bool,
    pub protect_sensitive: bool,
    pub hotkey: String,
    pub screenshot_hotkey: String,
    pub max_items: i64,
    pub theme: String,
    pub language: String,
}

/// `light`, the default theme.
pub open spec fn default_theme() -> Seq<char> {
    seq!['l', 'i', 'g', 'h', 't']
}

/// `zh-CN`, the default language.
pub open spec fn default_language() -> Seq<char> {
    seq!['z', 'h', '-', 'C', 'N']
}

/// The message given when the panel hotkey is not valid.
pub open spec fn panel_hotkey_error() -> Seq<char> {
    "快捷键必须包含至少一个修饰键，例如 Ctrl+Shift+V"@
}

/// The message given when the screenshot hotkey is not valid.
pub open spec fn screenshot_hotkey_error() -> Seq<char> {
    "截图快捷键必须包含至少一个修饰键，例如 Super+F1"@
}

/// The message given when both hotkeys are the same.
pub open spec fn same_hotkeys_error() -> Seq<char> {
    "截图快捷键不能和呼出快捷键相同"@
}

fn default_panel_hotkey_string() -> (r: String)
    ensures
        r@ == default_panel_hotkey(),
{
    let a = ['C', 't', 'r', 'l', '+', 'S', 'h', 'i', 'f', 't', '+', 'V'];
    assert(a@ =~= default_panel_hotkey());
    string_of(&a)
}

fn default_screenshot_hotkey_string() -> (r: String)
    ensures
        r@ == default_screenshot_hotkey(),
{
    let a = ['S', 'u', 'p', 'e', 'r', '+', 'F', '1'];
    assert(a@ =~= default_screenshot_hotkey());
    string_of(&a)
}

impl Default for Settings {
    /// Listening on, autostart off, sensitive text filtered, hotkeys `Ctrl+Shift+V` and
    /// `Super+F1`, at most 500 items, light theme, language `zh-CN`.
    fn default() -> (r: Self)
        ensures
            r.listening_enabled,
            !r.autostart_enabled,
            r.protect_sensitive,
            r.hotkey@ == default_panel_hotkey(),
            r.screenshot_hotkey@ == default_screenshot_hotkey(),
            r.max_items == 500,
            r.theme@ == default_theme(),
            r.language@ == default_language(),
    {
        let theme = ['l', 'i', 'g', 'h', 't'];
        let language = ['z', 'h', '-', 'C', 'N'];
        assert(theme@ =~= default_theme());
        assert(language@ =~= default_language());
        Settings {
            listening_enabled: true,
            autostart_enabled: false,
            protect_sensitive: true,
            hotkey: default_panel_hotkey_string(),
            screenshot_hotkey: default_screenshot_hotkey_string(),
            max_items: 500,
            theme: string_of(&theme),
            language: string_of(&language),
        }
    }
}

/// The hotkey that stored text `s` stands for: its normal form when that is valid,
/// `fallback` otherwise.
pub open spec fn effective_hotkey(s: Seq<char>, fallback: Seq<char>) -> Seq<char> {
    if hotkey_is_valid(normalized_hotkey(s)) {
        normalized_hotkey(s)
    } else {
        fallback
    }
}

/// Brings both hotkeys of stored settings into normal form, putting the default in place
/// of any that is not valid; everything else is kept. Whatever was stored, the result's
/// hotkeys are valid and in normal form.
pub fn sanitize_settings(settings: Settings) -> (r: Settings)
    ensures
        r.hotkey@ == effective_hotkey(settings.hotkey@, default_panel_hotkey()),
        r.screenshot_hotkey@ == effective_hotkey(
            settings.screenshot_hotkey@,
            default_screenshot_hotkey(),
        ),
        r.listening_enabled == settings.listening_enabled,
        r.autostart_enabled == settings.autostart_enabled,
        r.protect_sensitive == settings.protect_sensitive,
        r.max_items == settings.max_items,
        r.theme@ == settings.theme@,
        r.language@ == settings.language@,
        hotkey_is_valid(r.hotkey@),
        hotkey_is_valid(r.screenshot_hotkey@),
        normalized_hotkey(r.hotkey@) == r.hotkey@,
        normalized_hotkey(r.screenshot_hotkey@) == r.screenshot_hotkey@,
{
    proof {
        default_hotkeys_are_valid();
        normalize_is_idempotent(settings.hotkey@);
        normalize_is_idempotent(settings.screenshot_hotkey@);
    }
    let mut settings = settings;
    let hotkey = normalize_hotkey(settings.hotkey.as_str());
    let screenshot_hotkey = normalize_hotkey(settings.screenshot_hotkey.as_str());
    settings.hotkey = if valid_hotkey(hotkey.as_str()) {
        hotkey
    } else {
        default_panel_hotkey_string()
    };
    settings.screenshot_hotkey = if valid_hotkey(screenshot_hotkey.as_str()) {
        screenshot_hotkey
    } else {
        default_screenshot_hotkey_string()
    };
    settings
}

/// The normal form of a hotkey as typed by the user: trimmed, then normalised.
pub open spec fn entered_hotkey(s: Seq<char>) -> Seq<char> {
    normalized_hotkey(trimmed(s))
}

/// Checks settings the user asks to save. The panel hotkey and then the screenshot
/// hotkey are trimmed and normalised; an invalid one is refused with its message, and two
/// hotkeys that are equal up to ASCII case are refused too. Accepted settings come back
/// with the normalised hotkeys and every other field as given.
pub fn prepare_settings(settings: Settings) -> (r: Result<Settings, String>)
    ensures
        !hotkey_is_valid(entered_hotkey(settings.hotkey@)) ==> (r matches Err(e) && e@
            == panel_hotkey_error()),
        hotkey_is_valid(entered_hotkey(settings.hotkey@)) && !hotkey_is_valid(
            entered_hotkey(settings.screenshot_hotkey@),
        ) ==> (r matches Err(e) && e@ == screenshot_hotkey_error()),
        hotkey_is_valid(entered_hotkey(settings.hotkey@)) && hotkey_is_valid(
            entered_hotkey(settings.screenshot_hotkey@),
        ) && eq_ignore_ascii_case_spec(
            entered_hotkey(settings.hotkey@),
            entered_hotkey(settings.screenshot_hotkey@),
        ) ==> (r matches Err(e) && e@ == same_hotkeys_error()),
        r is Ok <==> (hotkey_is_valid(entered_hotkey(settings.hotkey@)) && hotkey_is_valid(
            entered_hotkey(settings.screenshot_hotkey@),
        ) && !eq_ignore_ascii_case_spec(
            entered_hotkey(settings.hotkey@),
            entered_hotkey(settings.screenshot_hotkey@),
        )),
        r matches Ok(s) ==> {
            &&& s.hotkey@ == entered_hotkey(settings.hotkey@)
            &&& s.screenshot_hotkey@ == entered_hotkey(settings.screenshot_hotkey@)
            &&& s.listening_enabled == settings.listening_enabled
            &&& s.autostart_enabled == settings.autostart_enabled
            &&& s.protect_sensitive == settings.protect_sensitive
            &&& s.max_items == settings.max_items
            &&& s.theme@ == settings.theme@
            &&& s.language@ == settings.language@
        },
{
    let mut settings = settings;
    let typed = trim_chars(&chars_of(settings.hotkey.as_str()));
    let shortcut = normalize_hotkey(string_of(&typed).as_str());
    if !valid_hotkey(shortcut.as_str()) {
        return Err(String::from_str("快捷键必须包含至少一个修饰键，例如 Ctrl+Shift+V"));
    }
    let typed = trim_chars(&chars_of(settings.screenshot_hotkey.as_str()));
    let screenshot_shortcut = normalize_hotkey(string_of(&typed).as_str());
    if !valid_hotkey(screenshot_shortcut.as_str()) {
        return Err(String::from_str("截图快捷键必须包含至少一个修饰键，例如 Super+F1"));
    }
    if eq_ignore_ascii_case(
        &chars_of(shortcut.as_str()),
        &chars_of(screenshot_shortcut.as_str()),
    ) {
        return Err(String::from_str("截图快捷键不能和呼出快捷键相同"));
    }
    settings.hotkey = shortcut;
    settings.screenshot_hotkey = screenshot_shortcut;
    Ok(settings)
}

/// Refuses a pair of hotkeys that are equal up to ASCII case, which cannot both be
/// registered.
pub fn check_shortcut_pair(panel_hotkey: &str, screenshot_hotkey: &str) -> (r: Result<(), String>)
    ensures
        r is Ok <==> !eq_ignore_ascii_case_spec(panel_hotkey@, screenshot_hotkey@),
        r matches Err(e) ==> e@ == same_hotkeys_error(),
{
    if eq_ignore_ascii_case(&chars_of(panel_hotkey), &chars_of(screenshot_hotkey)) {
        Err(String::from_str("截图快捷键不能和呼出快捷键相同"))
    } else {
        Ok(())
    }
}

/// What saving new settings has to change outside: the autostart entry and the
/// registered hotkeys.
#[derive(PartialEq, Eq, Structural, Clone, Copy, Debug)]
pub struct SettingsChange {
    pub autostart_changed: bool,
    pub hotkey_changed: bool,
}

/// Compares accepted new settings with the stored ones and with whether autostart is on
/// now: autostart is to be switched when it differs from the new wish, and the hotkeys
/// are to be registered anew when either of them differs from the stored one.
pub fn plan_settings_change(
    previous: &Settings,
    next: &Settings,
    autostart_was_enabled: bool,
) -> (r: SettingsChange)
    ensures
        r.autostart_changed == (autostart_was_enabled != next.autostart_enabled),
        r.hotkey_changed == (previous.hotkey@ != next.hotkey@ || previous.screenshot_hotkey@
            != next.screenshot_hotkey@),
{
    let same_panel = previous.hotkey == next.hotkey;
    let same_screenshot = previous.screenshot_hotkey == next.screenshot_hotkey;
    SettingsChange {
        autostart_changed: autostart_was_enabled != next.autostart_enabled,
        hotkey_changed: !same_panel || !same_screenshot,
    }
}

/// An outside step of saving settings.
#[derive(PartialEq, Eq, Structural, Clone, Copy, Debug)]
pub enum SaveAction {
    /// Switch start at login on or off.
    SetAutostart(bool),
    /// Unregister all global hotkeys.
    UnregisterShortcuts,
    /// Register the new hotkeys.
    RegisterNewShortcuts,
    /// Register the hotkeys stored before.
    RegisterPreviousShortcuts,
    /// Write the settings to the database.
    StoreSettings,
}

/// The step at which saving settings failed.
#[derive(PartialEq, Eq, Structural, Clone, Copy, Debug)]
pub enum SaveFailure {
    /// Switching autostart failed.
    AutostartSwitch,
    /// Unregistering the hotkeys failed.
    Unregister,
    /// Registering the new hotkeys failed.
    Register,
    /// Turning the settings into JSON failed.
    Serialize,
    /// The database could not be locked.
    Lock,
    /// Writing to the database failed.
    Write,
}

/// The outside steps of a save, in order: autostart is switched when it changes, the
/// hotkeys are unregistered and the new ones registered when they change, and the
/// settings are then written.
pub open spec fn save_plan(change: SettingsChange, new_autostart: bool) -> Seq<SaveAction> {
    (if change.autostart_changed {
        seq![SaveAction::SetAutostart(new_autostart)]
    } else {
        Seq::<SaveAction>::empty()
    }) + (if change.hotkey_changed {
        seq![SaveAction::UnregisterShortcuts, SaveAction::RegisterNewShortcuts]
    } else {
        Seq::<SaveAction>::empty()
    }) + seq![SaveAction::StoreSettings]
}

/// What a failed save undoes, in order. A failure to switch autostart, to write the
/// settings as JSON or to lock the database undoes nothing; a failure to unregister puts
/// autostart back if it was switched; a failure to register re-registers the previous
/// hotkeys and then puts autostart back if it was switched; a failure to write the
/// database unregisters and re-registers the previous hotkeys if they were changed, then
/// puts autostart back if it was switched.
pub open spec fn undo_plan(
    failure: SaveFailure,
    change: SettingsChange,
    autostart_was_enabled: bool,
) -> Seq<SaveAction> {
    let restore_autostart = if change.autostart_changed {
        seq![SaveAction::SetAutostart(autostart_was_enabled)]
    } else {
        Seq::<SaveAction>::empty()
    };
    match failure {
        SaveFailure::AutostartSwitch => Seq::<SaveAction>::empty(),
        SaveFailure::Unregister => restore_autostart,
        SaveFailure::Register => seq![SaveAction::RegisterPreviousShortcuts] + restore_autostart,
        SaveFailure::Serialize => Seq::<SaveAction>::empty(),
        SaveFailure::Lock => Seq::<SaveAction>::empty(),
        SaveFailure::Write => (if change.hotkey_changed {
            seq![SaveAction::UnregisterShortcuts, SaveAction::RegisterPreviousShortcuts]
        } else {
            Seq::<SaveAction>::empty()
        }) + restore_autostart,
    }
}

/// The outside steps that saving accepted settings takes, in order.
pub fn save_actions(change: &SettingsChange, new_autostart: bool) -> (r: Vec<SaveAction>)
    ensures
        r@ == save_plan(*change, new_autostart),
{
    let mut actions: Vec<SaveAction> = Vec::new();
    if change.autostart_changed {
        actions.push(SaveAction::SetAutostart(new_autostart));
    }
    if change.hotkey_changed {
        actions.push(SaveAction::UnregisterShortcuts);
        actions.push(SaveAction::RegisterNewShortcuts);
    }
    actions.push(SaveAction::StoreSettings);
    assert(actions@ =~= save_plan(*change, new_autostart));
    actions
}

/// The steps that undo a save that failed at `failure`, in order.
pub fn undo_actions(
    failure: SaveFailure,
    change: &SettingsChange,
    autostart_was_enabled: bool,
) -> (r: Vec<SaveAction>)
    ensures
        r@ == undo_plan(failure, *change, autostart_was_enabled),
{
    let mut actions: Vec<SaveAction> = Vec::new();
    match failure {
        SaveFailure::AutostartSwitch | SaveFailure::Serialize | SaveFailure::Lock => {},
        SaveFailure::Unregister => {},
        SaveFailure::Register => {
            actions.push(SaveAction::RegisterPreviousShortcuts);
        },
        SaveFailure::Write => {
            if change.hotkey_changed {
                actions.push(SaveAction::UnregisterShortcuts);
                actions.push(SaveAction::RegisterPreviousShortcuts);
            }
        },
    }
    let restores = match failure {
        SaveFailure::Unregister | SaveFailure::Register | SaveFailure::Write => true,
        _ => false,
    };
    if restores && change.autostart_changed {
        actions.push(SaveAction::SetAutostart(autostart_was_enabled));
    }
    assert(actions@ =~= undo_plan(failure, *change, autostart_was_enabled));
    actions
}

/// When a save fails after autostart was switched (while changing the hotkeys or writing
/// the settings), the undo steps end by switching autostart back to what it was.
pub proof fn failed_save_restores_autostart(
    failure: SaveFailure,
    change: SettingsChange,
    autostart_was_enabled: bool,
)
    requires
        change.autostart_changed,
        failure == SaveFailure::Unregister || failure == SaveFailure::Register || failure
            == SaveFailure::Write,
    ensures
        undo_plan(failure, change, autostart_was_enabled).len() > 0,
        undo_plan(failure, change, autostart_was_enabled).last() == SaveAction::SetAutostart(
            autostart_was_enabled,
        ),
{
}

/// When writing the settings fails after the hotkeys were changed, the previous hotkeys
/// are registered again; a failed registration of the new ones does the same.
pub proof fn failed_save_restores_hotkeys(
    failure: SaveFailure,
    change: SettingsChange,
    autostart_was_enabled: bool,
)
    requires
        failure == SaveFailure::Register || (failure == SaveFailure::Write && change.hotkey_changed),
    ensures
        undo_plan(failure, change, autostart_was_enabled).contains(
            SaveAction::RegisterPreviousShortcuts,
        ),
{
    let u = undo_plan(failure, change, autostart_was_enabled);
    if failure == SaveFailure::Register {
        assert(u[0] == SaveAction::RegisterPreviousShortcuts);
    } else {
        assert(u[1] == SaveAction::RegisterPreviousShortcuts);
    }
}

/// The settings with listening switched: on becomes off and off becomes on; every other
/// field is kept.
pub open spec fn with_listening_toggled(s: Settings) -> Settings {
    Settings {
        listening_enabled: !s.listening_enabled,
        autostart_enabled: s.autostart_enabled,
        protect_sensitive: s.protect_sensitive,
        hotkey: s.hotkey,
        screenshot_hotkey: s.screenshot_hotkey,
        max_items: s.max_items,
        theme: s.theme,
        language: s.language,
    }
}

/// Pauses listening to the clipboard when it is on, and resumes it when it is paused.
pub fn toggle_listening(settings: &mut Settings)
    ensures
        *final(settings) == with_listening_toggled(*old(settings)),
{
    settings.listening_enabled = !settings.listening_enabled;
}

/// Pausing and then resuming (or resuming and then pausing) gives back the settings as
/// they were.
pub proof fn toggling_twice_restores(s: Settings)
    ensures
        with_listening_toggled(with_listening_toggled(s)) == s,
{
}

/// The steps of a save: the new hotkeys are unregistered-then-registered (in that order,
/// and before the settings are written) exactly when they changed, whatever happens to
/// autostart; autostart is switched, to the new wish, exactly when it changed; and
/// writing the settings comes last, once.
pub proof fn save_plan_steps(change: SettingsChange, new_autostart: bool)
    ensures
        ({
            let plan = save_plan(change, new_autostart);
            &&& plan.len() > 0
            &&& plan.last() == SaveAction::StoreSettings
            &&& forall|i: int|
                0 <= i < plan.len() - 1 ==> #[trigger] plan[i] != SaveAction::StoreSettings
            &&& change.hotkey_changed ==> exists|i: int|
                0 <= i && i + 1 < plan.len() - 1 && #[trigger] plan[i]
                    == SaveAction::UnregisterShortcuts && plan[i + 1]
                    == SaveAction::RegisterNewShortcuts
            &&& !change.hotkey_changed ==> !plan.contains(SaveAction::UnregisterShortcuts)
                && !plan.contains(SaveAction::RegisterNewShortcuts)
            &&& plan.contains(SaveAction::SetAutostart(new_autostart)) <==> change.autostart_changed
            &&& !plan.contains(SaveAction::SetAutostart(!new_autostart))
            &&& !plan.contains(SaveAction::RegisterPreviousShortcuts)
        }),
{
    let plan = save_plan(change, new_autostart);
    let k: int = if change.autostart_changed {
        1
    } else {
        0
    };
    if change.autostart_changed {
        assert(plan[0] == SaveAction::SetAutostart(new_autostart));
    }
    if change.hotkey_changed {
        assert(plan[k] == SaveAction::UnregisterShortcuts);
        assert(plan[k + 1] == SaveAction::RegisterNewShortcuts);
    }
    if !change.autostart_changed {
        assert forall|i: int| 0 <= i < plan.len() implies plan[i] != SaveAction::SetAutostart(
            new_autostart,
        ) by {}
    }
    assert forall|i: int| 0 <= i < plan.len() implies plan[i] != SaveAction::SetAutostart(
        !new_autostart,
    ) && plan[i] != SaveAction::RegisterPreviousShortcuts by {}
    if !change.hotkey_changed {
        assert forall|i: int| 0 <= i < plan.len() implies plan[i] != SaveAction::UnregisterShortcuts
            && plan[i] != SaveAction::RegisterNewShortcuts by {}
    }
}

} // verus!
