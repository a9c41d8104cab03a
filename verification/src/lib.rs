//! Verified core of a coding-agent launcher and agent monitor: event
//! sanitising, transcript line splitting, evaluation request planning,
//! configuration handling and the install/verify decision logic.

pub mod text;
pub mod json;
pub mod process_log;
pub mod transcript;
pub mod evaluation;
pub mod install;
pub mod collection;
pub mod settings;
pub mod queries;
pub mod discovery;
pub mod hooks;
pub mod config_scan;
pub mod app_config;
pub mod path_env;
pub mod models;
