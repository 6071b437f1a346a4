//! Core of a terminal encyclopedia browser: the view-state machine that
//! interprets key presses and tick messages, the text-reflow pipeline that
//! turns raw hypertext into readable plain text, and the pure view-model
//! behind each rendered panel.

/// Timeout arithmetic for the input pump's poll/tick cadence.
pub mod pump;
/// The text-reflow pipeline: raw hypertext to clean, wrapped plain text.
pub mod reflow;
/// The pure view-model behind each rendered panel.
pub mod render;
/// The view-state machine: modes, the transition table, and its laws.
pub mod state;
/// The records the two remote operations hand back, and their views.
pub mod types;
