//! What holds of the operations as a whole, stated of their inputs and results.

pub mod catalog;
pub mod command_line;
pub mod completion;
pub mod durations;
pub mod events;
pub mod frames;
pub mod keys;
pub mod language;
pub mod mascot;
pub mod overlays;
pub mod panes;
pub mod results;
pub mod shapes;
pub mod texts;
pub mod traces;
pub mod views;
