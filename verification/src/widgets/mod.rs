//! The widgets of the bar.

pub mod bar;
pub mod bar_laws;
pub mod layout;
pub mod layout_laws;
pub mod render_laws;
pub mod tabs;
pub mod widget;
