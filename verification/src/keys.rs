use vstd::prelude::*;

verus! {

/// The Windows virtual-key code of the Ctrl key.
pub const VK_CONTROL: u16 = 0x11;

/// The Windows virtual-key code of the V key.
pub const VK_V: u16 = 0x56;

/// The `KEYEVENTF_KEYUP` flag of a keyboard input event.
pub const KEYEVENTF_KEYUP: u32 = 0x0002;

/// One synthetic keyboard event: a virtual-key code and the event flags (0 for a key
/// press, `KEYEVENTF_KEYUP` for a release).
#[derive(PartialEq, Eq, Structural, Clone, Copy, Debug)]
pub struct KeyStroke {
    pub virtual_key: u16,
    pub flags: u32,
}

/// The keyboard events that paste into the focused window, in the order they are to be
/// sent: Ctrl down, V down, V up, Ctrl up.
pub fn send_paste_keys() -> (r: Vec<KeyStroke>)
    ensures
        r@ == seq![
            KeyStroke { virtual_key: VK_CONTROL, flags: 0 },
            KeyStroke { virtual_key: VK_V, flags: 0 },
            KeyStroke { virtual_key: VK_V, flags: KEYEVENTF_KEYUP },
            KeyStroke { virtual_key: VK_CONTROL, flags: KEYEVENTF_KEYUP },
        ],
{
    let mut events: Vec<KeyStroke> = Vec::new();
    events.push(KeyStroke { virtual_key: VK_CONTROL, flags: 0 });
    events.push(KeyStroke { virtual_key: VK_V, flags: 0 });
    events.push(KeyStroke { virtual_key: VK_V, flags: KEYEVENTF_KEYUP });
    events.push(KeyStroke { virtual_key: VK_CONTROL, flags: KEYEVENTF_KEYUP });
    assert(events@ =~= seq![
        KeyStroke { virtual_key: VK_CONTROL, flags: 0 },
        KeyStroke { virtual_key: VK_V, flags: 0 },
        KeyStroke { virtual_key: VK_V, flags: KEYEVENTF_KEYUP },
        KeyStroke { virtual_key: VK_CONTROL, flags: KEYEVENTF_KEYUP },
    ]);
    events
}

} // verus!
