//! Turns the button events of a game-controller board into key presses on
//! the keyboard or into the state of a virtual gamepad.
//!
//! The board reports every press and release as a line on a serial port.
//! The decoder reads the lines, an engine applies the mapping and its
//! policy to each event, and the caller makes the sink calls that the
//! engine returns.

pub mod cli;
pub mod env;
pub mod json;
pub mod launcher;
pub mod mapping;
pub mod outputs;
pub mod scratch;
pub mod serial;
pub mod sink;
pub mod text;
pub mod types;
