//! An in-process broadcast bus for independent actors, and a tick-subdivided
//! periodic scheduler that is driven by the messages on that bus.
mod channel;
pub mod clicker;
pub mod keybind;
pub mod messenger;
pub mod ui;
