//! Driver logic for a multiplexed seven-segment LED display fed through a
//! chain of latched shift registers on GPIO pins.

pub mod gpio;
pub mod leds;
pub mod chain;
