# TrackMLN

TrackMLN tracks which app is in the foreground on Windows, stores the
sessions locally, shows daily and weekly usage, and raises alerts when a
screen-time goal is reached.

This crate holds its logic as a library verified with Verus, and the program
around it.

- `src/` — the verified library:
  - `unicode`, `text`: the character and string operations everything else is
    stated over;
  - `names`, `manifest`, `versioninfo`, `labels`, `cache`, `resolver`: how an
    executable path becomes an app identity and a display name;
  - `settings`, `paths`, `hotkey`: settings, file locations and changing the
    global shortcut;
  - `models`, `goals`, `limits`, `alerts`: goals, their checks and alerts;
  - `session`, `usage`, `grouping`, `calendar`, `week`: the tracked session
    and each tick's decisions, hourly, daily and per-app totals computed from
    stored sessions, and the week summary;
  - `installer`: the commands the installer runs.
- `tests/`: tests of the library.
- `app/`: the program: the SQLite store (its queries return sessions; the
  library totals them), the settings and cache files, Windows calls and the
  clock, the tracker loop, the dashboard's requests and the installer.
