//! What the keys do.

pub mod normal;
pub mod overlay;
pub mod perform;
pub mod plugin_chord;
