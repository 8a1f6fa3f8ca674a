pub mod command;
pub mod effect;
pub mod frontend;
pub mod gesture;
pub mod machine;
pub mod outcomes;
pub mod paint;
pub mod registry;
pub mod routing;
pub mod runtime;
pub mod spike;
pub mod state;
pub mod supervision;
pub mod supervisor;
pub mod title;
