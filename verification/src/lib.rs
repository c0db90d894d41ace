//! Executable engineering policies for Rust workspaces: facts, configuration,
//! diagnostics, and the decisions that turn them into reports.

pub mod diagnostic;
pub mod lines;
pub mod text;
pub mod order;
pub mod lint_levels;
pub mod config;
pub mod lint_catalog;
pub mod profile;
pub mod selection;
pub mod facts;
pub mod paths;
pub mod tools;
pub mod commands;
pub mod messages;
pub mod semantic;
pub mod semantic_config;
pub mod report;
pub mod args;
pub mod human;
pub mod progress;
pub mod check;
pub mod workspace;
pub mod init;
