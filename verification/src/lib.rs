//! Core of a terminal C# editor.

pub mod check;
pub mod editor;
pub mod file_io;
pub mod input;
pub mod laws;
pub mod model;
pub mod report;
pub mod run;
pub mod session;
pub mod spans;
pub mod style;
pub mod syntax;
pub mod text;
pub mod ui;
