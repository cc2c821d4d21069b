//! The commands: what each decides, apart from reading and writing files.

pub mod add_command;
pub mod build_command;
pub mod init_command;
pub mod scaffold;
