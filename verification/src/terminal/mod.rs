pub mod emulator;
pub mod fitting;
pub mod input;
pub mod mouse;
pub mod parser;
pub mod paste;
pub mod process;
pub mod pty;
pub mod query;
pub mod screen;
pub mod selection;
pub mod session;
