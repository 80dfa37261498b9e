//! Session activity watcher: verified model of an agent session.

pub mod action_laws;
pub mod agent;
pub mod alert_laws;
pub mod alerter;
pub mod alerts_panel;
pub mod classifier;
pub mod clock;
pub mod commands;
pub mod common;
pub mod config;
pub mod config_laws;
pub mod decode;
pub mod event_bus;
pub mod file_activity;
pub mod hook;
pub mod hook_laws;
pub mod json;
pub mod jsonl_tail;
pub mod laws;
pub mod list_laws;
pub mod loop_detector;
pub mod measure_laws;
pub mod metrics;
pub mod metrics_panel;
pub mod order_laws;
pub mod panel_laws;
pub mod path_laws;
pub mod paths;
pub mod phase_laws;
pub mod process_monitor;
pub mod record_laws;
pub mod report_laws;
pub mod runtime;
pub mod session;
pub mod session_laws;
pub mod setting_laws;
pub mod shown_laws;
pub mod snapshot;
pub mod source_laws;
pub mod state;
pub mod state_laws;
pub mod state_machine;
pub mod status;
pub mod status_bar;
pub mod store;
pub mod stream_laws;
pub mod task_laws;
pub mod tasks;
pub mod test_laws;
pub mod text;
pub mod text_laws;
pub mod tui;
pub mod types;
pub mod ui;
pub mod watch;
pub mod watcher;
