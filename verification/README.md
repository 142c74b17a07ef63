# pasteboost

The logic of the PasteBoost clipboard tool as a Verus-verified library, with the desktop
shell around it.

- `src/` is the library. Every function carries a `requires`/`ensures` contract. Verus
  proves the contracts of all functions but the few marked `external_body`, which wrap
  calls into std, `serde_json`, `base64` and `image`: their contracts are trusted, and
  each says in its doc comment what it claims. The properties that relate several
  functions stand there as public proof functions.
  - `text`: characters of strings, Unicode white space, trimming, searching, ASCII case
    folding; lower-casing goes through `str::to_lowercase`.
  - `hotkey`: tokenising, validating and normalising global hotkeys.
  - `settings`: the settings record, repair of stored settings, checks before saving,
    and the steps (and undo steps) of a save.
  - `classify`: the kind of copied text (JSON through `serde_json`, link, address, code,
    text), secret detection, and whether copied text is stored.
  - `format`: decimal and hexadecimal digits.
  - `pixels`: RGBA pictures, the 24-bit DIB written to the Windows clipboard, cropping,
    screen pixels, and the tray icon shown after a screenshot.
  - `encoding`: PNG files and PNG data URLs (through `image` and `base64`).
  - `listener`: image labels and signatures, and one step of the clipboard listener.
  - `screenshot`: the pending screenshot session.
  - `keys`: the keyboard events that paste.
- `tests/` runs the library on concrete values.
- `app/` is the Tauri application: commands, SQLite storage, clipboard, tray, hotkey
  registration and Windows calls. It calls the library for every decision.
