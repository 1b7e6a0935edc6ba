pub mod folder_watcher;
pub mod watcher_command;
