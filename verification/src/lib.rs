//! Synchronize macOS preferences with one config file: the verified core.

pub mod args;
pub mod commands;
pub mod config;
pub mod document;
pub mod integrations;
pub mod number;
pub mod util;
