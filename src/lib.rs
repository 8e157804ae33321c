//! Pseudo-terminal session management: a registry of live sessions, the
//! sandbox policy that composes the confined shell command, the spawn
//! fallback rule, the output pump's decisions, and the session commands;
//! with the parsers and small stores of the desktop host around them.

pub mod registry;
pub mod session;
mod ids;
pub mod text;
pub mod policy;
pub mod remediation;
pub mod spawn;
pub mod pump;
pub mod directory_cache;
pub mod instance;
pub mod claude;
pub mod tokens;
pub mod typecheck;
pub mod listing;
pub mod procfs;
pub mod tasks;
pub mod porcelain;
pub mod python_source;
pub mod change_analysis;
pub mod git_stats;
