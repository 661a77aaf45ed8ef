# yappr

Yappr is a macOS menu-bar push-to-talk assistant: hold Right Option to
dictate into the focused app, hold Command + Right Option to ask a spoken
question and hear the answer. A local `llama-server` transcribes and answers.

## Layout

- `src/` — the verified library (Verus). Each function carries a contract
  that Verus proves, except a few small wrappers around outside calls
  (`std`, chrono, serde_json, base64, png, dirs), whose contracts are trusted
  and say so in their doc comments:
  - `ini`, `roundtrip`, `config` — the settings file: parsing, rendering,
    merging the user file over the defaults, migrations, and the typed
    configuration read from it.
  - `text`, `paths` — string and path helpers used throughout.
  - `chat`, `search` — prompts, transcript clean-up, the web-search tool call,
    the DuckDuckGo Lite result parser and the availability cache.
  - `server` — model file locations, download progress and resume, launch
    arguments, and which running server serves the configured model.
  - `speech` — the choice of speech engine and the fallback to `say`.
  - `runtime`, `flow`, `menu`, `hotkey` — the decisions of the running app as
    functions from state and event to next state and action.
  - `mascot`, `ui`, `ui_state` — icon cropping and scaling, menu contents and
    check marks, status texts.
  - `audio`, `perms`, `instance`, `logger`, `cli` — device reports,
    permission summaries, the single-instance lock, log lines and the
    command line.
- `tests/` — tests of the library, run against the real outside crates.
- `app/` — the program around the library: audio capture, HTTP, processes,
  the event tap, the menu bar and voice-activity detection. It performs the
  work that the library's decisions ask for.
