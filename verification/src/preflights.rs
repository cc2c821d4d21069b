//! What is checked of a project before a command touches it.

pub mod add;
pub mod building;
pub mod init;
