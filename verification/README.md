# together

The logic of a desktop companion overlay (friends' characters living on the
desktop, with a tray menu), written in Verus with its contracts proved.

- `src/overlay.rs` — the shared overlay state: which users are listed in the
  tray and which of them are hidden, which users have character windows, the
  tray menu model, what each tray entry does, and how the character windows
  are synchronised with the room's users. Laws on these operations are proved
  at the end of the file.
- `src/activity.rs` — the activity label shown for a user, from the
  foreground application (Windows executable and window title, or macOS
  application name).
- `src/escape.rs` — `\uXXXX` escaping of user JSON and percent-encoding of a
  query value, with their round-trip laws.
- `src/users.rs` — reading the users JSON array (through `serde_json`) and
  finding one user's JSON.
- `src/text.rs` — character-level string helpers (search, trimming, decimal
  numbers) with exact specifications.
- `src/window.rs` — character window sizes per size level.
- `app/lib.rs` — the Tauri shell: windows, tray icon, commands and the
  platform probe of the foreground application.
