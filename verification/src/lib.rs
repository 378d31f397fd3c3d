pub mod text;
pub mod log_entry;
pub mod pattern;
pub mod ios_noise;
pub mod filter;
pub mod crash_detector;
pub mod network_condition;
pub mod capture;
pub mod adb;
pub mod command;
pub mod sorting;
pub mod watch;
pub mod tools;
pub mod pane;
pub mod tag_completion;
pub mod qr_pairing;
pub mod log_buffer_config;
pub mod ios;
pub mod throttle;
pub mod protocol;
pub mod workspace;
pub mod tool_catalog;
pub mod sidebar;
pub mod pane_controls;
pub mod named;
