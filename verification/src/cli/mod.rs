//! CLI commands: the requests they make and what they print.
//!
//! Resource commands are clients of the running daemon's control API.
//! Lifecycle commands (start, stop, restart, status) talk to the daemon
//! socket.
pub mod activity;
pub mod auth;
pub mod binding;
pub mod channel;
pub mod chat;
pub mod client;
pub mod config;
pub mod cron;
pub mod dashboard;
pub mod ingest;
pub mod memory;
pub mod messaging;
pub mod model;
pub mod notification;
pub mod output;
pub mod project;
pub mod prompt;
pub mod provider;
pub mod request;
pub mod secrets;
pub mod skill;
pub mod task;
pub mod update;
pub mod usage;
pub mod wiki;

use vstd::prelude::*;
use auth::AuthCommand;
use secrets::SecretsCommand;
use skill::SkillCommand;

verus! {

/// The command line.
#[derive(Debug)]
pub struct Cli {
    pub command: Option<Command>,
    /// Path to config file (optional)
    pub config: Option<String>,
    /// Enable debug logging
    pub debug: bool,
    /// Print raw API responses as JSON
    pub json: bool,
    /// Base URL of a spacebot instance (defaults to the local daemon)
    pub url: Option<String>,
    /// API auth token (defaults to api.auth_token from config)
    pub token: Option<String>,
}

/// The commands.
#[derive(Debug)]
pub enum Command {
    /// Start the daemon (default when no subcommand is given)
    Start { foreground: bool },
    /// Stop the running daemon
    Stop,
    /// Restart the daemon (stop + start)
    Restart { foreground: bool },
    /// Show status of the running daemon
    Status,
    /// Manage skills
    Skill(SkillCommand),
    /// Manage authentication
    Auth(AuthCommand),
    /// Manage secrets stored in the running instance
    Secrets(SecretsCommand),
}

/// Global options shared by every resource command.
#[derive(Debug)]
pub struct Context {
    pub config_path: Option<String>,
    pub json: bool,
    pub url: Option<String>,
    pub token: Option<String>,
}

impl Cli {
    /// The command to run, and the options that resource commands share. No
    /// command starts the daemon in the background.
    pub fn split(self) -> (parts: (Command, Context))
        ensures
            parts.0 == (match self.command {
                Some(command) => command,
                None => Command::Start { foreground: false },
            }),
            parts.1 == (Context { config_path: self.config, json: self.json, url: self.url, token: self.token }),
    {
        let command = match self.command {
            Some(command) => command,
            None => Command::Start { foreground: false },
        };
        (command, Context { config_path: self.config, json: self.json, url: self.url, token: self.token })
    }
}

impl Command {
    /// Whether a command is handled before any client is made.
    pub fn is_lifecycle(&self) -> (yes: bool)
        ensures
            yes == (self is Start || self is Stop || self is Restart || self is Status),
    {
        match self {
            Command::Start { .. } | Command::Stop | Command::Restart { .. } | Command::Status => true,
            _ => false,
        }
    }
}

} // verus!
