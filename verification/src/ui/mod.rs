//! Pane geometry and the small pieces of text the panes draw.
pub mod article_list;
pub mod config_menu;
pub mod modals;
pub mod sidebar;
pub mod widgets;
