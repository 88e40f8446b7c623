//! The tab bar of a terminal multiplexer's status line.
//!
//! The [`plugin`] takes events and messages in and says what it asks for in return. The
//! [`widgets`] turn what it knows into the text of the bar, and a click on that text into the tabs
//! to switch to.

pub mod color;
pub mod color_laws;
pub mod data;
pub mod event;
pub mod name_color;
pub mod name_laws;
pub mod number;
pub mod ordered;
pub mod plugin;
pub mod search;
pub mod state;
pub mod style;
pub mod style_laws;
pub mod tab_name;
pub mod text;
pub mod text_laws;
pub mod text_map;
pub mod titles;
pub mod view_laws;
pub mod widgets;
pub mod width;
pub mod window;
