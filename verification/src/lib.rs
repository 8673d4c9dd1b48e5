//! The verified core of an outliner's terminal interface.

pub mod actions;
pub mod autocomplete;
pub mod commands;
pub mod dates;
pub mod edit_buffer;
pub mod effect;
pub mod event_loop;
pub mod icons;
pub mod input;
pub mod keys;
pub mod listing;
pub mod outline;
pub mod paths;
pub mod runtime;
pub mod state;
pub mod style;
pub mod text;
pub mod theme;
pub mod todo;
pub mod view;
