pub mod ansi;
pub mod bindings;
pub mod events;
pub mod filters;
pub mod keys;
pub mod models;
pub mod search;
pub mod selection;
pub mod state;
pub mod text;
pub mod unit_files;
pub mod commands;
pub mod journal;
pub mod terminal;
pub mod styles;
pub mod display;
pub mod screens;
pub mod laws;
