pub mod focus;
pub mod hit_test;
pub mod layout;
pub mod mode;
pub mod pane;
pub mod pane_map;
pub mod persistence;
pub mod selection;
pub mod state;
pub mod tabs;
