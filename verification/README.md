# mdir

A keyboard-driven terminal file manager in the spirit of the old Mdir: a
multi-column file list, selection, copy, move, delete, rename, new
directories and files, a text viewer with search, a small editor, a file
search and a help screen.

## Layout

- `src/` is the verified core. The application is a state machine
  (`app.rs`): a key or the result of some outside work comes in, the state
  changes, and at most one piece of outside work is asked for
  (`Effect`), whose result comes back as an `Outcome`. The other modules
  hold what the states are made of and what the screen shows: key tables
  (`event.rs`), list entries and their order (`file_entry.rs`), the
  selection and the orders it is walked in (`selection.rs`), cursor
  arithmetic (`nav.rs`), one-line text fields (`line_edit.rs`), the
  viewer and the editor, glob matching, number and date formatting, and
  the text of every line drawn (`screen.rs`, `layout.rs`).
- `app/` is the terminal program around it: it reads keys with crossterm,
  does the file system work, reads disk usage, and draws with ratatui.
- `tests/` drive the core through its public functions, the application
  with a small file system kept in memory.
