//! Screenshot capture: configuration, naming, history and the capture daemon's decisions.
pub mod text;
pub mod hotkey;
pub mod capture;
pub mod error;
pub mod table;
pub mod path;
pub mod region;
pub mod history;
pub mod config;
pub mod config_edit;
pub mod daemon;
pub mod selection;
pub mod worker_registry;
pub mod ui_state;
pub mod clock;
pub mod filename_template;
pub mod json;
pub mod lock;
pub mod clipboard;
pub mod logging;
pub mod fsio;
pub mod output;
pub mod output_metrics;
pub mod events;
pub mod file_output;
pub mod cli;
pub mod display_policy;
pub mod one_shot;
pub mod fingerprint;
pub mod benchmark;
pub mod budget;
pub mod compare;
pub mod build_identity;
