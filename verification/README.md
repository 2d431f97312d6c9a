# Anchor

A service that syncs GitHub repositories into git worktrees (a bare clone plus one
worktree per coding agent) and keeps a tmux window with one pane per agent, with a small
htmx dashboard, a settings page and an in-browser terminal.

## Layout

- `src/` — the library, verified with Verus: configuration, session tokens and the
  session check, the sync / status / tmux / pane-zoom decision machines, settings,
  project records and slugs, the GitHub listing's URLs, paging and cache, the dashboard's
  forms, rows and HTML, the project-creation flow, and secret redaction. Each public
  function states its result in its contract; where the result rests on the clock or on
  chance, the contract states what holds of every outcome, and a sibling function that
  takes the time (or the random bytes) as an argument states it exactly. The laws that
  relate several functions are public proof functions.
- `app/` — the executable around it: the axum server, the SQLite store, process
  spawning for `git` and `tmux`, the GitHub HTTP calls, the PTY behind the terminal
  socket, and serde copies of the library's types.
- `tests/` — tests of the library on concrete values.

The decision machines never run anything themselves: each step names the next action
(a path check, a directory to create, a `git` or `tmux` run) and `app/` performs it and
hands the outcome back.
