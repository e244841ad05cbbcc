//! Verified core of the GigLog developer tooling: text handling, API tester
//! variables and routes, orchestrator log and watch logic, and the small
//! builders used by the docs, setup and database viewer commands.

pub mod text;
pub mod table;
pub mod variables;
pub mod collection;
pub mod log_store;
pub mod dev_tui;
pub mod watcher;
pub mod ansi;
pub mod orchestrator;
pub mod executor;
pub mod route_list_state;
pub mod db_sql;
pub mod env_setup;
pub mod paths;
pub mod docs_index;
pub mod body_preview;
pub mod api_messages;
pub mod global_listener;
pub mod route_list;
pub mod response_view;
pub mod cell_edit;
pub mod db_view;
pub mod cell_input;
pub mod db_app;
pub mod db_keys;
pub mod db_edit;
pub mod db_form;
pub mod db_grid;
pub mod db_nav;
pub mod nav_history;
pub mod editor_layout;
pub mod help_view;
pub mod preview_state;
pub mod var_table;
pub mod input_keys;
pub mod route_preview;
pub mod route_editor;
pub mod api_screens;
pub mod api_app;
pub mod cli;
pub mod relay;
