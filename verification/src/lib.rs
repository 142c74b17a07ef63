//! The verified core of PasteBoost, a clipboard history tool: hotkey parsing and
//! normalisation, settings checks, classification of copied text, picture conversions
//! (Windows DIB, cropping, the tray icon), PNG data URLs, and the decisions of the
//! clipboard listener, the screenshot session and the settings save.

pub mod text;
pub mod hotkey;
pub mod settings;
pub mod classify;
pub mod format;
pub mod pixels;
pub mod encoding;
pub mod listener;
pub mod screenshot;
pub mod keys;
