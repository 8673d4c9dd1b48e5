//! What the screen shows.

pub mod chrome;
pub mod embed;
pub mod frame;
pub mod help;
pub mod inline;
pub mod lists;
pub mod namespace;
pub mod outline;
pub mod overlays;
pub mod palette;
pub mod panel;
pub mod properties;
pub mod row_chrome;
pub mod settings;
pub mod sidebar;
pub mod slash;
pub mod toasts;
pub mod wrap;
