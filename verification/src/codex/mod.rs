//! Codex rollouts.

pub mod contextual;
pub mod laws;
pub mod lines;
pub mod message;
pub mod output;
pub mod scan;
pub mod session;
pub mod stamp;
pub mod usage;
