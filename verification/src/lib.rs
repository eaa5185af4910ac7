//! A sparse pixel-art canvas with undo/redo history, a command language,
//! and the conversions behind its file formats, with their contracts.

pub mod app;
pub mod canvas;
pub mod color;
pub mod command;
pub mod file;
pub mod history;
pub mod input;
pub mod render;
pub mod text;
pub mod ui;
