pub mod ansi;
pub mod app;
pub mod clock;
pub mod command;
pub mod config;
pub mod duration;
pub mod layout;
pub mod output;
pub mod settings;
pub mod style;
pub mod text;
pub mod widgets;
