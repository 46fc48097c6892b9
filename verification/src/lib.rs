//! Verified core of the sched_ext loader tools: configuration lookups,
//! command-line helpers, the terminal front-end's state machine, backend
//! helpers, journal flattening and install-path rewriting.

pub mod text;
pub mod sched;
pub mod config;
pub mod ctl;
pub mod backend;
pub mod journal;
pub mod tui;
pub mod install;
