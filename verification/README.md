# skills_tui

The logic of a terminal interface that manages a library of skills: what a key, a click or a
finished piece of background work does, and what is put on the screen. It is written in Rust and
verified with Verus.

- `src/` is the verified library. It does no input or output. The application is a state machine:
  a message goes in, effects come out, and what only the outside can find out is asked for and
  answered. Screens are scenes, lists of things to draw.
  - `app/` routes events, carries out what dialogs and pages ask for, and draws the frame.
  - `modal.rs` and `dialogs/` are the dialogs; `batch.rs`, `deploy_picker.rs`,
    `repository_picker.rs` and `sync_picker.rs` are the larger ones.
  - `sync_coordinator.rs` decides when the library is backed up.
  - `components/` is shared by pages and dialogs; `markdown.rs`, `measure.rs`, `paths.rs`, `text.rs`,
    `ui.rs` and `widgets.rs` are what they are made of.
- `app/` puts the library into a terminal: threads, messages, and painting. Whoever owns the files
  and the pages implements its two traits.
- `tests/` runs the library with the real crates.
