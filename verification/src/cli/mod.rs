pub mod commands;
pub mod instance;
pub mod ipc;
pub mod output;
