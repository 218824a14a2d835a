//! Reflect's rules: when the daily reminder is due, what a settings file
//! says, what counts as an entry and how it is named, and which prompt a day
//! is given.

pub mod autostart;
pub mod calendar;
pub mod entries;
pub mod files;
pub mod notes;
pub mod notification;
pub mod prompts;
pub mod schedule;
pub mod settings;
pub mod text;
pub mod tray_menu;
