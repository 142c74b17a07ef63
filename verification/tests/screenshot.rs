use pasteboost::keys::{send_paste_keys, KeyStroke, KEYEVENTF_KEYUP, VK_CONTROL, VK_V};
use pasteboost::pixels::Picture;
use pasteboost::screenshot::{ScreenshotBounds, ScreenshotCapture, ScreenshotStore};

fn capture(x: i32) -> ScreenshotCapture {
    ScreenshotCapture {
        picture: Picture::new(1, 1, vec![0, 0, 0, 255]).unwrap(),
        bounds: ScreenshotBounds { x, y: 0, width: 1, height: 1 },
    }
}

#[test]
fn session_lifecycle() {
    let mut store = ScreenshotStore::new();
    assert_eq!(store.session().err().unwrap(), "截图会话已失效");
    store.begin(capture(5));
    assert_eq!(store.session().ok().unwrap(), ScreenshotBounds { x: 5, y: 0, width: 1, height: 1 });
    store.begin(capture(7));
    let taken = store.take().ok().unwrap();
    assert_eq!(taken.bounds.x, 7);
    assert_eq!(store.session().err().unwrap(), "截图会话已失效");
    assert_eq!(store.take().err().unwrap(), "截图会话已失效");
}

#[test]
fn cancel_clears_session() {
    let mut store = ScreenshotStore::new();
    store.begin(capture(1));
    store.clear();
    assert!(store.session().is_err());
}

#[test]
fn paste_key_sequence() {
    assert_eq!(
        send_paste_keys(),
        vec![
            KeyStroke { virtual_key: VK_CONTROL, flags: 0 },
            KeyStroke { virtual_key: VK_V, flags: 0 },
            KeyStroke { virtual_key: VK_V, flags: KEYEVENTF_KEYUP },
            KeyStroke { virtual_key: VK_CONTROL, flags: KEYEVENTF_KEYUP },
        ]
    );
    assert_eq!(VK_CONTROL, 0x11);
    assert_eq!(VK_V, 0x56);
    assert_eq!(KEYEVENTF_KEYUP, 2);
}

#[test]
fn session_and_take_agree() {
    let mut store = ScreenshotStore::new();
    store.begin(capture(3));
    let bounds = store.session().ok().unwrap();
    let taken = store.take().ok().unwrap();
    assert_eq!(taken.bounds, bounds);
    store.begin(capture(4));
    store.clear();
    assert!(store.take().is_err());
}
