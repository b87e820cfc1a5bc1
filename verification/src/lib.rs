//! Verified core of a tray application that shows an assistant's usage.

pub mod appcache;
pub mod assistant;
pub mod autostart;
pub mod binary;
pub mod checker;
pub mod cli;
pub mod cli_refresh;
pub mod config;
pub mod files;
pub mod greeting;
pub mod hook;
pub mod icon;
pub mod instance;
pub mod json;
pub mod laws;
pub mod menu;
pub mod numerals;
pub mod paths;
pub mod percent;
pub mod platform;
pub mod poll;
pub mod portal;
pub mod profiles;
pub mod restart;
pub mod source;
pub mod table;
pub mod text;
pub mod time;
pub mod toasts;
pub mod tray;
pub mod ui;
pub mod update;
pub mod wrapped;
