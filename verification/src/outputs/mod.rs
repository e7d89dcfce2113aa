//! The two engines: one for the keyboard, one for the gamepad.

pub mod keyboard;
pub mod keys;
pub mod x360;
