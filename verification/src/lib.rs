//! A terminal client for an agent server: state, input, decoding and rendering
//! logic, kept free of terminal and network work.

pub mod appearance;
pub mod client;
pub mod dashboard;
pub mod effects;
pub mod events;
pub mod fold;
pub mod input;
pub mod json;
pub mod keys;
pub mod keystrokes;
pub mod laws;
pub mod narration;
pub mod overlay;
pub mod palette;
pub mod panels;
pub mod reactions;
pub mod render;
pub mod routing;
pub mod splash;
pub mod sse;
pub mod state;
pub mod terminal;
pub mod text;
pub mod theme;
pub mod transcript;
pub mod turns;
pub mod update;
pub mod view;

pub use crate::effects::route_message;
pub use crate::update::drive;
