//! Decision core of a keyboard-driven Bluetooth manager.

pub mod ansi;
pub mod app;
pub mod audio;
pub mod bt;
pub mod diag;
pub mod shell;
pub mod text;
pub mod ui;
pub mod worker;
