pub mod command_channel;
pub mod ipc_command;
pub mod ipc_service;
pub mod request_processor;
