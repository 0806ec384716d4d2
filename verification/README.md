# Aviary

The logic of a mail client's interface, verified with Verus: what each view shows, what a
click, a key or an answer from a provider does to the state of the application, and what
the application then asks for.

- `src/` is the library. `state.rs` holds the state of the application (`AviaryApp`) and
  what it can ask for (`Effect`). `dispatch.rs` takes events of the runtime to the modules
  that handle them (`*_events.rs`, `sign_out.rs`, `requests.rs`). The `*_pane.rs` modules,
  `message_row.rs`, `message_menu.rs` and `search_panel.rs` decide what is drawn and what a
  click does. `folder_tree.rs`, `move_targets.rs`, `message_list.rs` and `list_entries.rs`
  build trees and lists, of which `list_laws.rs` and `list_runs.rs` state what holds as a
  whole; `kanban*.rs` the board; `event_compose.rs` the forms of events;
  `settings.rs` and `theme.rs` the preferences. Smaller modules stand beside them:
  `pictures.rs`, `inline_images.rs`, `rich_clipboard.rs`, `session_store.rs`, `memory.rs`,
  `logs_view.rs`, `hover.rs`, `list_metrics.rs`.
- Contracts speak of the mathematical form of each type (its deep view). Functions named
  `law_..` state what holds of several functions together.
- Calls into `chrono`, `image`, `sys-locale` and the standard library stand behind small
  trusted functions in `dates.rs`, `pictures.rs`, `inline_images.rs`, `settings.rs` and
  `text.rs`.
- `app/` is ordinary Rust around the library: files, threads, the environment, helper
  programs, and arithmetic on floating-point numbers.
- `tests/` runs the library.
