pub mod version_control;
