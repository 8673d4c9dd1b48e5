//! What the user can do.

pub mod collapsed;
pub mod completion;
pub mod exec;
pub mod loading;
pub mod metadata;
pub mod namespace;
pub mod nav;
pub mod pages;
pub mod persistence;
pub mod plugins;
pub mod properties;
pub mod reminders;
pub mod text_ops;
pub mod visual;
pub mod zoom;
