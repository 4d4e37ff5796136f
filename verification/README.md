# nsis_tauri_utils

The verified core of the NSIS plugins that Tauri installers use.

- `src/` is the library, checked by Verus:
  - `strings` — `StrReplace`: replacing every occurrence of a text.
  - `semver_compare` — `SemverCompare`: ordering two semantic versions
    (parsing and the pre-release/build orders come from the `semver` crate).
  - `process` — choosing the processes a plugin call is about from a
    process snapshot: every row whose name matches, case-insensitively,
    except the installer itself.
  - `process_tasks` — the steps of `FindProcess`, `KillProcess` and their
    current-user variants (every matching process is terminated, and a
    failure is reported at the end), and when a termination counts as done.
  - `launch` — the steps of `RunAsUser`, and its command line.
  - `download` — the status `Download` reports, its progress display, and
    the `Content-Length` number.
- `app/` holds the plugin entry points: they talk to the NSIS stack and to
  Windows and the network, and ask the library what to do.
