//! `ccode` transcripts.

pub mod commands;
pub mod laws;
pub mod lines;
pub mod message;
pub mod session;
pub mod stripping;
pub mod typed;
