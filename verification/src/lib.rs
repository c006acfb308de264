//! Core logic of a desktop quote displayer: the quote store, the weighted
//! picker, the display schedule, hotkey parsing and the tray texts.
pub mod models;
pub mod text;
pub mod state;
pub mod store;
pub mod random;
pub mod selection;
pub mod popup;
pub mod schedule;
pub mod keyboard;
pub mod tray;
pub mod laws;
