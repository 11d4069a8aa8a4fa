# shirase

Shirase (知らせ) is a notification center: it receives notifications over a
Unix socket, keeps a persistent history, filters by application and urgency,
supports Do-Not-Disturb with quiet hours, groups notifications by
application and offers vim-style keyboard navigation.

## Layout

- `src/` — the library, verified with Verus:
  - `notification` — notifications, urgency levels, grouping by application;
  - `order` — newest-first ordering of notifications;
  - `history` — the in-memory history with its size and age limits, and its queries;
  - `filter` — blocked and priority applications, DND and quiet hours;
  - `daemon` — what the daemon does for each IPC command, and whether the
    history file must be written afterwards;
  - `input` — key maps and the navigation state;
  - `render` — the text of every view, as lines;
  - `paths`, `platform`, `scripting`, `config` — paths, platform
    notifications, script hooks and settings;
  - `settings` — reading a configuration value by a dotted key from the
    configuration's JSON tree;
  - `clock`, `text`, `source` — the calls into chrono, uuid, `str` and tsuuchi.
- `app/` — the program around it: command line, configuration loading,
  the history file, the socket daemon and client, the MCP server and the
  Rhai scripting host.
- `tests/` — tests of the library.

Laws that hold across operations are stated as public proof functions
named `law_…` (and `lemma_navigation_…`, `lemma_up_down_inverse` for
navigation) next to the operations they speak of.
