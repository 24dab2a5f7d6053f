# runitgui

A terminal interface for managing runit services: it lists the enabled and
available services with their status, and starts, stops, restarts, enables and
disables them.

## Layout

- `src/` — the verified library (Verus).
  - `text.rs` — substring search and the order of names on character sequences.
  - `service.rs` — the service record and its statuses.
  - `listing.rs` — building the service list from directory entries: filtering,
    merging enabled and available services, stable sorting by name, and the laws
    of the result (sorted, a permutation, names unique, enabled services kept).
  - `runit.rs` — the runit directories, reading `sv status` output (status and
    process id), judging `sv` command outcomes, link paths.
  - `scan.rs` — the scan results, built only from directory entries and `sv status`
    outputs: enabled services with distinct names, every status consistent.
  - `app.rs` — the application state machine: a key starts a step that asks the
    caller for outside work (`sv`, links, a scan) and decides on each reply.
  - `table.rs` — the rows of the service table as shown.
- `app/` — the program: terminal drawing (ratatui), key reading (crossterm),
  running `sv` and touching the file system.
- `tests/` — tests of the library.

## Keys

| Key | Action |
|-----|--------|
| `↑` / `↓` | Navigate services |
| `s` | Start selected service |
| `x` | Stop selected service |
| `r` | Restart selected service |
| `e` | Enable selected service |
| `d` | Disable selected service |
| `q` | Quit application |
