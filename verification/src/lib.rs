//! The logic of a small Wayland status bar: configuration, widget state,
//! parsing of sysfs and tool output, and workspace bookkeeping.

pub mod text;
pub mod bar;
pub mod components;
pub mod conf;
pub mod toml_doc;
pub mod theme;
pub mod battery;
pub mod brightness;
pub mod volume;
pub mod wifi;
pub mod workspaces;
pub mod log;
pub mod ci;
