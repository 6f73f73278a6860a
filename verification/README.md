# Rusty-Do

A keyboard-driven terminal planner: notebooks hold side-by-side task columns, tasks hold
checklists of subtasks. Notebooks are stored as JSON files next to an index of when each was
last opened; the overview lists them most recent first.

The planner's logic is a library written in Verus and verified; the program around it
(terminal, drawing, files) is ordinary Rust.

## Layout

- `src/` — the verified library.
  - `models.rs`: subtasks, tasks and notebooks; completion in tenths of a percent.
  - `storage.rs`: the notebook index — syncing it with the files found on disk, marking a
    notebook as opened, sorting newest first.
  - `text.rs`: UTF-8 byte offsets, white space, and the facts about them the editors need.
  - `keys.rs`: key presses as the planner tells them apart.
  - `ui/`: the windows and popups as state machines — overview, notebook view (task
    columns, scrolling), inspector (title, description and list editor), confirmation and
    text prompts, themes and theme files, list selections, subtask line wrapping.
  - `app.rs`, `app/actions.rs`, `app/input.rs`: the planner as a whole. A key goes in
    (`input::handle_key`), the new state and a list of `Effect`s (save this notebook, reload
    the list, …) come out. `input::accepts_key` tells in advance whether a key can be taken.
  - `app/laws.rs` and the `law_*` proof functions elsewhere: properties proved of the
    library as a whole (moves undone by the opposite move, abandoned additions leaving no
    trace, the notebook view staying well-formed, the index listing exactly the notebooks on
    disk, typing then Backspace restoring a text, …).
- `app/` — the program: terminal loop, drawing with ratatui, reading keys with crossterm,
  JSON files with serde, carrying out the effects.
- `tests/` — tests of the library on concrete values.
