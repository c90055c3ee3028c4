pub mod config;
pub mod json_doc;
pub mod manifest;
pub mod paths;
pub mod project;
pub mod scanner;
pub mod text;
pub mod cleaner;
pub mod updater;
pub mod cli;
pub mod settings;
pub mod display;
pub mod setup;
pub mod http;
pub mod update_flow;
pub mod scan_flow;
pub mod clean_command;
