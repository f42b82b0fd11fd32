//! The logic of a desktop overlay that shows notifications from coding-assistant sessions
//! running in terminals, and routes the user's answers back to the terminals they came from.

pub mod autostart;
pub mod clock;
pub mod daemon;
pub mod focus_win32;
pub mod heuristic;
pub mod input_spec;
pub mod overlay;
pub mod registry;
pub mod store;
pub mod text;
