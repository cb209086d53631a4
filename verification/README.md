# gack

A compact terminal panel for everyday Git work: status, diffs, staging,
commits, stash, branches, remotes, worktrees, submodules and conflict
helpers in one interface.

The library under `src/` holds the program's logic, specified and proved
with Verus; `app/` is the program around it (the terminal, the `git`
processes, the file system and the file watcher).

## Layout

- `src/git/` – reading Git's output (status, diffs, stash, branches, log,
  worktrees, submodules, conflicts), the order of change keys, the commands
  planned for staging, unstaging and discarding, and redaction of
  credentials from error text.
- `src/model.rs`, `src/session.rs`, `src/rail.rs` – the interface state and
  what each key press does to it; the rail's rows and selection.
- `src/operations.rs` – confirmed operations: which Git command each runs
  (the fast-forward update and the push are built by `update_commands` and
  `push_command` in `src/git/queries.rs` once the upstream distances are
  known), what is reported afterwards, the discard safety check and the
  commit and editor handoffs.
- `src/config.rs`, `src/cli.rs`, `src/editor.rs`, `src/commands.rs`,
  `src/action.rs` – settings files, the command line, commit messages and
  the editor command, the command palette and the key map.
- `src/display.rs`, `src/watch.rs` – the text the screen shows, and which
  file changes matter and when the event loop refreshes.
- `src/path.rs`, `src/text.rs` – paths by their components (how paths
  compare and order), and text helpers.
- `app/` – `main`, the terminal loop and drawing (`ratatui`, `crossterm`),
  `git` processes and the file watcher (`notify`).
