//! The decision logic of the Aviary mail client.
use vstd::prelude::*;

pub mod account_events;
pub mod account_laws;
pub mod account_map;
pub mod app;
pub mod assets;
pub mod board_laws;
pub mod bulk_events;
pub mod calendar_events;
pub mod change_laws;
pub mod choice_laws;
pub mod compose_events;
pub mod dates;
pub mod day_laws;
pub mod detail_laws;
pub mod dispatch;
pub mod editors;
pub mod event_compose;
pub mod fields;
pub mod folder_events;
pub mod folder_pane;
pub mod folder_tree;
pub mod form_laws;
pub mod headers;
pub mod hover;
pub mod inline_images;
pub mod kanban;
pub mod kanban_columns;
pub mod kanban_laws;
pub mod kanban_pane;
pub mod list_entries;
pub mod list_laws;
pub mod list_metrics;
pub mod list_pane;
pub mod list_runs;
pub mod lists;
pub mod logs_view;
pub mod mail_laws;
pub mod mailbox_events;
pub mod memory;
pub mod message_events;
pub mod message_list;
pub mod message_menu;
pub mod message_row;
pub mod model;
pub mod move_targets;
pub mod notice_laws;
pub mod outcome_laws;
pub mod pane_laws;
pub mod pictures;
pub mod quick_actions;
pub mod navigation;
pub mod reading;
pub mod reading_laws;
pub mod recipe_laws;
pub mod recipes;
pub mod requests;
pub mod retag;
pub mod rich_clipboard;
pub mod search_panel;
pub mod selection;
pub mod session_store;
pub mod setting_laws;
pub mod settings;
pub mod sign_out;
pub mod state;
pub mod tag_events;
pub mod tag_laws;
pub mod text;
pub mod theme;

verus! {

} // verus!
