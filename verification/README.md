# lotion_rs

The verified core of the Lotion desktop shell, a Tauri wrapper around Notion.

- `src/` is the library, verified with Verus:
  - `state` — windows and tabs (`AppState`) and every change the shell makes to
    them, with the properties those changes keep;
  - `vault` — the state key (PBKDF2-HMAC-SHA256), AES-256-GCM sealing with Base64
    storage, and the order in which a stored state is read back;
  - `litebox` — the once-only, fail-closed process sandbox;
  - `i18n` — locale validation and catalogs;
  - `commands` — origin and URL checks for the commands a page may invoke;
  - `menu`, `tab_controller`, `spellcheck` — menu layout and dispatch, the script
    injected into tabs, dictionary locations;
  - `table`, `text` — a string-keyed registry and text helpers.
- `app/` is the Tauri program around it: windows, commands, files and OS calls.
- `tests/` exercises the library.
