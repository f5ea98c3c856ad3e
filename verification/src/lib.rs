//! Control core of a small button-and-display handheld: a generic menu
//! state machine, a snake simulation, a breakout simulation, the linear
//! congruential generator that places collectibles, and the edge detector
//! for the four input buttons.
//!
//! Everything here is pure state-machine logic over plain values; the
//! display driver, button sampling and frame pacing live outside and feed
//! these types through their public methods.

pub mod breakout;
pub mod games_menu;
pub mod geom;
pub mod inputs;
pub mod menu;
pub mod rand;
pub mod snake;
pub mod tile_vec;
