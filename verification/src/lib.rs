//! Anchor: GitHub repositories synced into git worktrees, with tmux panes for coding agents.
//!
//! The verified core of the service: configuration, session tokens, sync and tmux
//! decision machines, settings, and the text handling they rest on.

pub mod text;
pub mod shell;
pub mod git;
pub mod sync_plan;
pub mod tmux;
pub mod string_map;
pub mod config;
pub mod auth;
pub mod settings;
pub mod error;
pub mod sync_memory;
pub mod order;
pub mod project_store;
pub mod ttl_cache;
pub mod github;
pub mod projects;
pub mod status_cache;
pub mod terminal;
pub mod dashboard;
pub mod pane_zoom;
pub mod api;
pub mod pages;
pub mod create_flow;
