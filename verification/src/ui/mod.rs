pub mod context_menu;
pub mod controls;
pub mod sidebar;
pub mod style;
pub mod terminal;
