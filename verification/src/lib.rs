//! Verified core of a system-tray indicator for the komorebi window manager.

pub mod app;
pub mod autostart;
pub mod config;
pub mod event;
pub mod hotkey;
pub mod icon;
pub mod komorebi;
pub mod menu;
pub mod menu_id;
pub mod model;
pub mod order;
pub mod paths;
pub mod render;
pub mod session;
pub mod single_instance;
pub mod table;
pub mod text;
pub mod tray;
pub mod utils;
pub mod windows_theme;
