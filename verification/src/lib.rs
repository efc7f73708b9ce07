pub mod command;
pub mod config;
pub mod presence;
pub mod server_commands;
pub mod text;
