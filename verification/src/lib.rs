//! Managed git worktrees for a coding session.

pub mod attention;
pub mod bounds;
pub mod checks;
pub mod discovery;
pub mod encoding;
pub mod enter;
pub mod environment;
pub mod errors;
pub mod exit;
pub mod filters;
pub mod git_dialogues;
pub mod guarantees;
pub mod json;
pub mod managed;
pub mod managed_dialogues;
pub mod metadata;
pub mod notification;
pub mod operations;
pub mod output;
pub mod paths;
pub mod pending_input;
pub mod progress;
pub mod replay;
pub mod round_trips;
pub mod rpc;
pub mod runs;
pub mod session;
pub mod session_dialogues;
pub mod text;
pub mod tool_dialogues;
pub mod tool_spec;
pub mod version;
pub mod worktree;
