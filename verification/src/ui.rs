//! User interface pieces: borders, styles, and the widgets built on them.

pub mod consts;
pub mod border;
pub mod style;
pub mod display;
pub mod menu;
pub mod selector;
pub mod button;
pub mod textbox;
