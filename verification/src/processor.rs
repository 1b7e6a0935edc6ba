pub mod command;
pub mod commands;
pub mod processor;
