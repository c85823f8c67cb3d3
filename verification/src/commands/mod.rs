//! The decisions behind each command of the tool.

pub mod server;
pub mod project;
pub mod init;
pub mod update;
