# hline

A shell history browser for Bash, Zsh and Fish: a full-screen list with live
search, date filters, sorting, multi-select, clipboard copy, favorites that
double as aliases, and a shell widget. Enter prints the chosen commands so a
widget can put them on the prompt.

The logic is a Verus library whose behaviour is stated in contracts and
proved; the program around it does the I/O.

## Layout

- `src/` — the verified library
  - `text.rs`: characters, lines, words, decimal numbers
  - `paths.rs`: default locations of history, favorites, settings and cache
  - `history.rs`: Bash, Zsh and Fish history parsing and format detection
  - `sort.rs`: the four sort orders (recency, alphabet, length, timestamp) and a
    verified merge sort
  - `query.rs`: case-insensitive matching and the `after:`/`before:`/`on:` filters
  - `favorites.rs`: favorite blocks (untitled ones are `favN`), adding,
    removing, renaming, alias lookup
  - `settings.rs`: alias behaviour, the widget key and the shell snippets
  - `update.rs`: version comparison and the update notices
  - `app.rs`, `actions.rs`: the list's state, what each key does, and the laws
    that every key keeps
  - `status.rs`, `ui.rs`: the status bar, row labels and scrolling
- `app/` — the `hline` program: command line, files, clipboard, terminal
- `tests/` — tests of the library

The clipboard and the favorites file are reached through effects: a key
returns `Effect::CopyToClipboard` or `Effect::PersistFavorites`, the program
does the work and reports back with `finish_copy` or `finish_save_favorite`.
