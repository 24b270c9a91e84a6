//! A single projectile: position, travel direction, and a
//! traveling / exploding / expired lifecycle.
//!
//! A live shot moves one row per tick toward its target edge — up when
//! ascending (a player shot), down otherwise (a super-barrage shot). Once it
//! explodes it stops moving and runs a short countdown; when that countdown
//! elapses, or when the shot sits at its target edge, it is eligible for
//! removal.
use vstd::prelude::*;

use crate::frame::write_cell;
use crate::frame::Frame;
use crate::timer::Timer;
use crate::NUM_ROWS;
use crate::NUM_COLS;

verus! {

/// Duration of a shot's explosion, in milliseconds.
pub const SHOT_EXPLOSION_MS: u64 = 250;

/// The glyph a shot renders as: a bolt while live, an impact mark while
/// exploding.
pub open spec fn shot_glyph(s: Shot) -> char {
    if s.exploding {
        '*'
    } else {
        '|'
    }
}

#[derive(Clone, Copy, PartialEq, Eq, Structural, Debug)]
pub struct Shot {
    /// Column of the shot.
    pub x: usize,
    /// Row of the shot.
    pub y: usize,
    /// True for a player shot traveling up; false for a barrage shot
    /// traveling down. The travel direction is derived from this flag.
    pub ascending: bool,
    /// Once set the shot no longer moves and no longer collides.
    pub exploding: bool,
    /// True only for the player's primary shots: a hit by such a shot
    /// credits the super meter.
    pub builds_meter: bool,
    /// Counts down the explosion once `exploding` is set.
    pub explode_timer: Timer,
}

impl Shot {
    /// The shot stays on the grid and its countdown is well-formed.
    pub open spec fn wf(self) -> bool {
        &&& self.x < NUM_COLS
        &&& self.y < NUM_ROWS
        &&& self.explode_timer.wf()
    }

    /// The state `update` leaves behind: an exploding shot only runs its
    /// countdown down; a live shot moves one row toward its target edge and
    /// stops at that edge.
    pub open spec fn spec_update(self, delta_ms: u64) -> Shot {
        if self.exploding {
            Shot { explode_timer: self.explode_timer.spec_update(delta_ms), ..self }
        } else if self.ascending {
            if self.y > 0 {
                Shot { y: (self.y - 1) as usize, ..self }
            } else {
                self
            }
        } else {
            if self.y < NUM_ROWS - 1 {
                Shot { y: (self.y + 1) as usize, ..self }
            } else {
                self
            }
        }
    }

    /// The state `explode` leaves behind: frozen in place, with a fresh
    /// explosion countdown started.
    pub open spec fn spec_explode(self) -> Shot {
        Shot {
            exploding: true,
            explode_timer: Timer {
                duration_ms: SHOT_EXPLOSION_MS,
                time_left_ms: SHOT_EXPLOSION_MS,
                ready: false,
            },
            ..self
        }
    }

    /// A shot is removed once its explosion has finished or once it sits at
    /// the edge it was traveling toward.
    pub open spec fn spec_dead(self) -> bool {
        ||| (self.exploding && self.explode_timer.ready)
        ||| (self.ascending && self.y == 0)
        ||| (!self.ascending && self.y >= NUM_ROWS - 1)
    }

    /// A new shot at `(x, y)`, traveling up when `ascending`; only ascending
    /// (player) shots build the super meter.
    pub fn new(x: usize, y: usize, ascending: bool) -> (s: Shot)
        ensures
            s == (Shot {
                x,
                y,
                ascending,
                exploding: false,
                builds_meter: ascending,
                explode_timer: Timer {
                    duration_ms: SHOT_EXPLOSION_MS,
                    time_left_ms: SHOT_EXPLOSION_MS,
                    ready: false,
                },
            }),
            x < NUM_COLS && y < NUM_ROWS ==> s.wf(),
    {
        Shot {
            x,
            y,
            ascending,
            exploding: false,
            builds_meter: ascending,
            explode_timer: Timer::from_millis(SHOT_EXPLOSION_MS),
        }
    }

    /// Advance the shot by one tick of `delta_ms` elapsed milliseconds.
    pub fn update(&mut self, delta_ms: u64)
        ensures
            *final(self) == old(self).spec_update(delta_ms),
            old(self).wf() ==> final(self).wf(),
    {
        if self.exploding {
            self.explode_timer.update(delta_ms);
        } else if self.ascending {
            if self.y > 0 {
                self.y = self.y - 1;
            }
        } else {
            if self.y < NUM_ROWS - 1 {
                self.y = self.y + 1;
            }
        }
    }

    /// Freeze the shot and start its explosion countdown.
    pub fn explode(&mut self)
        ensures
            *final(self) == old(self).spec_explode(),
            old(self).wf() ==> final(self).wf(),
    {
        self.exploding = true;
        self.explode_timer = Timer::from_millis(SHOT_EXPLOSION_MS);
    }

    /// Paint the shot into the frame: a bolt while live, an impact glyph
    /// while exploding.
    pub fn draw(&self, frame: &mut Frame)
        requires
            old(frame).wf(),
            self.wf(),
        ensures
            final(frame).wf(),
            final(frame).cells@ == write_cell(old(frame).cells@, self.x, self.y, shot_glyph(*self)),
    {
        let glyph = if self.exploding {
            '*'
        } else {
            '|'
        };
        frame.set_cell(self.x, self.y, glyph);
    }

    /// Whether the shot is eligible for removal.
    pub fn dead(&self) -> (r: bool)
        ensures
            r == self.spec_dead(),
    {
        (self.exploding && self.explode_timer.ready) || (self.ascending && self.y == 0) || (
        !self.ascending && self.y >= NUM_ROWS - 1)
    }
}

} // verus!
