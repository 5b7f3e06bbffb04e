//! The rules of a service manager for runit, apart from its windows and its processes:
//! which commands to run and what to make of their output, what the window shows, and
//! what each button asks for.

pub mod action;
pub mod ansi;
pub mod app;
pub mod asking;
pub mod chars;
pub mod command;
pub mod decimal;
pub mod dialog;
pub mod disk;
pub mod lang;
pub mod laws;
pub mod loader;
pub mod names;
pub mod order;
pub mod pieces;
pub mod printed;
pub mod reading;
pub mod rows;
pub mod runit;
pub mod services;
pub mod showing;
pub mod status;
pub mod text;
pub mod wording;
