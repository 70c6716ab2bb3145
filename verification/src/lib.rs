//! Verified core of Chronicle, a local-first activity memory engine.
pub mod text;
pub mod json;
pub mod path_text;
pub mod time;
pub mod base64;
pub mod png;
pub mod raw_event;
pub mod activity_capture;
pub mod filesystem_activity_capture;
pub mod input_capture;
pub mod windows_ui_automation_capture;
pub mod windows_active_window_screenshot;
pub mod transient_screenshot_capture;
pub mod asynchronous_processing_queue;
pub mod local_semantic_processing;
pub mod local_model_provider;
pub mod local_ai_setup;
pub mod application_commands;
pub mod data_directory;
