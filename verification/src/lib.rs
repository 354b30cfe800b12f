pub mod api;
pub mod autostart;
pub mod cli;
pub mod config;
pub mod error;
pub mod pdf;
pub mod static_files;
mod text;
pub mod tray;
