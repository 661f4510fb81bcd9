pub mod text;
pub mod json;
pub mod error;
pub mod path_policy;
pub mod actions;
pub mod runtime;
pub mod process_runner;
pub mod config;
pub mod dialog;
pub mod server;
