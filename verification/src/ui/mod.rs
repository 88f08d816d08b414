//! The panels of the window.

pub mod map_view;
pub mod playback;
pub mod sidebar;
