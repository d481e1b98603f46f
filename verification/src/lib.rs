//! The decisions, rules and renderings of an agent daemon and its command line.
pub mod agent;
pub mod api;
pub mod cli;
pub mod commands;
pub mod conversation;
pub mod identity;
pub mod json;
pub mod lifecycle;
pub mod llm;
pub mod memory;
pub mod order;
pub mod paths;
pub mod projects;
pub mod prompts;
pub mod questions;
pub mod schedule;
pub mod settings;
pub mod skills;
pub mod table;
pub mod tasks;
pub mod text;
pub mod time;
pub mod version;
