//! Verified core of the `repo` workarea manager: configuration model,
//! project status classification and the decisions behind each command.

pub mod text;
pub mod error;
pub mod config;
pub mod git;
pub mod commands;
pub mod cli;
pub mod laws;
