# vispeak

The verified core of a Windows voice-dictation tool: press a hotkey, speak,
and the recognized text is pasted into the window you were typing in.

- `src/` is the library, verified with Verus. It holds the decisions of the
  application: which key events start, stop or cancel a recording; the
  recorder's state machine and what becomes of a finished recording; how a
  located caret is classified, validated and chosen; how text is delivered
  and the clipboard restored; settings defaults and migration; the model
  registry; which history records and recordings are deleted; the speech
  window kept after voice-activity detection; which audio sessions are
  ducked. Calls into the `image` and `base64` crates (`src/icon.rs`), and
  into `String::push` and `str::to_lowercase`, go through small wrappers
  whose contracts are trusted rather than proved.
- `tests/` runs the library on concrete values.
- `app/` is the desktop shell (Tauri, Win32, audio devices, recognizers,
  SQLite, files). It performs the I/O and hands plain values to the
  library.
