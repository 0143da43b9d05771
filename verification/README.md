# next_hunk

The review engine of `next-hunk`, a terminal tool for reading large diffs, as a
Verus library: every function in `src/` carries a contract that Verus proves.

- `src/` — the verified library.
  - `keys`: key routing, normal-mode commands and two-key sequences, prompt
    editing, mouse hit-testing.
  - `keymap`: named keys and key specs, default bindings, config overrides.
  - `view`, `status`, `split_side`, `file_header`, `stack_plan`,
    `inline_notes`, `match_line`, `marks`: the text of each screen line —
    file rail, status bar, help overlay and prompt line, split and stacked
    layouts, file-header rules, inline notes, search-match and
    attention-mark painting, tab expansion and width-aware truncation.
  - `theme`: palettes, theme modes and their names.
  - `app`, `session`, `reload`: session state — search, toasts, cursor and
    viewport, file filter, note navigation, per-hunk decisions, what a
    hot reload carries over.
  - `normal`: what each normal-mode command does to the review session
    (cursor moves, file jumps, toggles, layout/theme/palette cycling,
    prompts, `--select` decisions), against a full specification.
  - `review_start`: opening a session (its defaults and startup hint),
    placing the view on a `--focus` target, running a `/` search, and a
    hot reload that carries the user's place into the new review.
  - `serve`: what each serve-mode command does to the session (push,
    navigate, comments, batches, attention marks) and what it answers,
    against a full specification.
  - `export`, `persist`, `paths`, `server`, `watch`: review reports,
    persisted decisions, state-file paths, serve-mode messages and comment
    bookkeeping, the watch debounce.
  - `text`: string helpers over `Seq<char>` models.
- `tests/` — tests of the library.
- `app/` — the front end around it: terminal events and styles (crossterm,
  ratatui), files and environment, the Unix socket, the filesystem watcher,
  the JSON and TOML wire formats.
