pub mod app;
pub mod backend;
pub mod bytes;
pub mod digest;
pub mod event;
pub mod geometry;
pub mod path;
pub mod terminal;
pub mod text;
pub mod time;
pub mod ui;
pub mod workbench;
pub mod workspace;
