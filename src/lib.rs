//! Hit tracking for the pins of a pinball table.
//!
//! A pin is a fixed round obstacle. When the ball starts touching it the pin
//! turns "struck" and stays so for a cool-down of three seconds, after which it
//! turns "idle" again. Positions and radii are held in millimetres of the
//! physical table, times in milliseconds of the simulation clock.

pub mod laws;
pub mod layout;
pub mod pin;
pub mod tracker;
