//! Simulation core of an arcade-style fixed-grid shooter: an enemy formation
//! that marches and descends, a player unit that fires rate-limited shots and
//! a timed "super" barrage, and a charge meter that unlocks the super attack.
//! All state advances deterministically from elapsed-time values supplied by
//! the caller on each tick.
use vstd::prelude::*;

pub mod frame;
pub mod invaders;
pub mod player;
pub mod shot;
pub mod supermeter;
pub mod timer;

verus! {

/// Number of columns of the playing grid.
pub const NUM_COLS: usize = 40;

/// Number of rows of the playing grid.
pub const NUM_ROWS: usize = 20;

} // verus!
