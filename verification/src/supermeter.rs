//! The super-attack charge meter: a counter bounded by `MAX_METER_AMOUNT`
//! that flips a `super_ready` flag once full, and a flash timer that blinks
//! the readiness indicator.
use vstd::prelude::*;

use crate::frame::write_cell;
use crate::frame::Frame;
use crate::timer::Timer;
use crate::NUM_COLS;

verus! {

/// Charge level at which the super attack unlocks.
pub const MAX_METER_AMOUNT: usize = 10;

/// Interval of the readiness blink, in milliseconds.
pub const FLASH_INTERVAL_MS: u64 = 150;

#[derive(Clone, Copy, PartialEq, Eq, Structural, Debug)]
pub struct SuperMeter {
    /// Current charge, always in `[0, MAX_METER_AMOUNT]`.
    pub meter: usize,
    /// True exactly while the charge sits at `MAX_METER_AMOUNT`.
    pub super_ready: bool,
    /// Whether the filled part of the bar is currently shown; toggled by the
    /// flash timer only while the meter is ready.
    pub visible: bool,
    /// Drives the blinking of the readiness indicator.
    pub flash_timer: Timer,
}

impl SuperMeter {
    /// The charge never exceeds its maximum and `super_ready` holds exactly
    /// when the charge is full.
    pub open spec fn wf(self) -> bool {
        &&& self.meter <= MAX_METER_AMOUNT
        &&& (self.super_ready <==> self.meter == MAX_METER_AMOUNT)
        &&& self.flash_timer.wf()
    }

    /// The state a freshly constructed meter holds.
    pub open spec fn spec_new() -> SuperMeter {
        SuperMeter {
            meter: 0,
            super_ready: false,
            visible: true,
            flash_timer: Timer {
                duration_ms: FLASH_INTERVAL_MS,
                time_left_ms: FLASH_INTERVAL_MS,
                ready: false,
            },
        }
    }

    /// The state `increment_meter` leaves behind: one more unit of charge,
    /// capped at the maximum; readiness is gained once the charge is full and
    /// is never lost here.
    pub open spec fn spec_increment(self) -> SuperMeter {
        let charged = if self.meter < MAX_METER_AMOUNT {
            (self.meter + 1) as usize
        } else {
            self.meter
        };
        SuperMeter {
            meter: charged,
            super_ready: if charged >= MAX_METER_AMOUNT {
                true
            } else {
                self.super_ready
            },
            ..self
        }
    }

    /// The state `reset` leaves behind: empty, not ready, visible, with the
    /// flash timer untouched.
    pub open spec fn spec_reset(self) -> SuperMeter {
        SuperMeter { meter: 0, super_ready: false, visible: true, ..self }
    }

    pub fn new() -> (m: SuperMeter)
        ensures
            m == SuperMeter::spec_new(),
            m.wf(),
    {
        SuperMeter {
            meter: 0,
            super_ready: false,
            visible: true,
            flash_timer: Timer::from_millis(FLASH_INTERVAL_MS),
        }
    }

    /// Credit one unit of charge, unlocking the super attack at full charge.
    pub fn increment_meter(&mut self)
        ensures
            *final(self) == old(self).spec_increment(),
            old(self).wf() ==> final(self).wf(),
    {
        if self.meter < MAX_METER_AMOUNT {
            self.meter = self.meter + 1;
        }
        if self.meter >= MAX_METER_AMOUNT {
            self.super_ready = true;
        }
    }

    /// Advance the flash timer; only while the meter is ready does its expiry
    /// toggle the visibility flag and restart the countdown.
    pub fn update(&mut self, delta_ms: u64)
        ensures
            ({
                let ticked = old(self).flash_timer.spec_update(delta_ms);
                if old(self).super_ready && ticked.ready {
                    *final(self) == (SuperMeter {
                        visible: !old(self).visible,
                        flash_timer: ticked.spec_reset(),
                        ..*old(self)
                    })
                } else {
                    *final(self) == (SuperMeter { flash_timer: ticked, ..*old(self) })
                }
            }),
            old(self).wf() ==> final(self).wf(),
    {
        self.flash_timer.update(delta_ms);
        if self.super_ready && self.flash_timer.ready {
            self.visible = !self.visible;
            self.flash_timer.reset();
        }
    }

    /// Clear the charge and the readiness flag; called once the player has
    /// consumed the super ability.
    pub fn reset(&mut self)
        ensures
            *final(self) == old(self).spec_reset(),
            old(self).wf() ==> final(self).wf(),
    {
        self.meter = 0;
        self.super_ready = false;
        self.visible = true;
    }
}

/// The readout line the meter renders: a bracketed bar whose filled length
/// equals the charge — drawn as fill characters while visible and as blanks
/// while the flash hides it, so only the filled part blinks — padded to the
/// maximum, with a prompt appended only while the meter is ready.
pub open spec fn meter_line(m: SuperMeter) -> Seq<char> {
    seq!['S', 'U', 'P', 'E', 'R', ':', ' ', '[']
        + Seq::new(
        m.meter as nat,
        |i: int|
            if m.visible {
                '='
            } else {
                ' '
            },
    ) + Seq::new((MAX_METER_AMOUNT - m.meter) as nat, |i: int| ' ') + seq![']', ' ']
        + if m.super_ready {
        seq!['P', 'r', 'e', 's', 's', ' ', 'F', '!']
    } else {
        Seq::<char>::empty()
    }
}

/// The frame cells after painting the characters of `line` along row `y`,
/// starting at column `x`.
pub open spec fn paint_row_from(cells: Seq<char>, line: Seq<char>, x: usize, y: usize) -> Seq<
    char,
>
    decreases line.len(),
{
    if line.len() == 0 {
        cells
    } else {
        paint_row_from(write_cell(cells, x, y, line[0]), line.drop_first(), (x + 1) as usize, y)
    }
}

impl SuperMeter {
    /// Paint the meter readout along row 1, starting at the left edge.
    pub fn draw(&self, frame: &mut Frame)
        requires
            old(frame).wf(),
            self.wf(),
        ensures
            final(frame).wf(),
            final(frame).cells@ == paint_row_from(old(frame).cells@, meter_line(*self), 0, 1),
    {
        let ghost prefix = seq!['S', 'U', 'P', 'E', 'R', ':', ' ', '['];
        let mut line: Vec<char> = Vec::new();
        line.push('S');
        line.push('U');
        line.push('P');
        line.push('E');
        line.push('R');
        line.push(':');
        line.push(' ');
        line.push('[');
        proof {
            assert(line@ =~= prefix);
        }
        let mut k: usize = 0;
        while k < self.meter
            invariant
                self.wf(),
                k <= self.meter,
                line@ == prefix + Seq::new(
                    k as nat,
                    |i: int|
                        if self.visible {
                            '='
                        } else {
                            ' '
                        },
                ),
            decreases self.meter - k,
        {
            line.push(
                if self.visible {
                    '='
                } else {
                    ' '
                },
            );
            proof {
                assert(line@ =~= prefix + Seq::new(
                    (k + 1) as nat,
                    |i: int|
                        if self.visible {
                            '='
                        } else {
                            ' '
                        },
                ));
            }
            k = k + 1;
        }
        let ghost bar = line@;
        let mut k: usize = 0;
        while k < MAX_METER_AMOUNT - self.meter
            invariant
                self.wf(),
                k <= MAX_METER_AMOUNT - self.meter,
                line@ == bar + Seq::new(k as nat, |i: int| ' '),
            decreases MAX_METER_AMOUNT - self.meter - k,
        {
            line.push(' ');
            proof {
                assert(line@ =~= bar + Seq::new((k + 1) as nat, |i: int| ' '));
            }
            k = k + 1;
        }
        line.push(']');
        line.push(' ');
        if self.super_ready {
            line.push('P');
            line.push('r');
            line.push('e');
            line.push('s');
            line.push('s');
            line.push(' ');
            line.push('F');
            line.push('!');
        }
        proof {
            assert(line@ =~= meter_line(*self));
        }
        let ghost cells0 = frame.cells@;
        proof {
            assert(line@.skip(0) =~= line@);
        }
        let mut i: usize = 0;
        while i < line.len()
            invariant
                line@ == meter_line(*self),
                line@.len() <= NUM_COLS,
                i <= line@.len(),
                frame.wf(),
                paint_row_from(frame.cells@, line@.skip(i as int), i, 1) == paint_row_from(
                    cells0,
                    line@,
                    0,
                    1,
                ),
            decreases line@.len() - i,
        {
            proof {
                assert(line@.skip(i as int)[0] == line@[i as int]);
                assert(line@.skip(i as int).drop_first() =~= line@.skip(i as int + 1));
            }
            let c = line[i];
            frame.set_cell(i, 1, c);
            i = i + 1;
        }
        proof {
            assert(line@.skip(line@.len() as int).len() == 0);
        }
    }
}

/// The meter after `k` consecutive `increment_meter` calls from state `m`.
pub open spec fn meter_after_increments(m: SuperMeter, k: nat) -> SuperMeter
    decreases k,
{
    if k == 0 {
        m
    } else {
        meter_after_increments(m, (k - 1) as nat).spec_increment()
    }
}

/// Charging law: starting from a fresh meter, `k` increments leave the charge
/// at `min(k, MAX_METER_AMOUNT)`, and readiness holds exactly once the charge
/// has reached the maximum — so readiness is gained exactly at the increment
/// that fills the meter, and the charge never exceeds the maximum.
pub proof fn lemma_meter_charges(k: nat)
    ensures
        meter_after_increments(SuperMeter::spec_new(), k).meter
            == if k < MAX_METER_AMOUNT { k as int } else { MAX_METER_AMOUNT as int },
        meter_after_increments(SuperMeter::spec_new(), k).super_ready <==> k >= MAX_METER_AMOUNT,
        meter_after_increments(SuperMeter::spec_new(), k).wf(),
    decreases k,
{
    if k > 0 {
        lemma_meter_charges((k - 1) as nat);
    }
}

/// Resetting twice in a row yields exactly the state of resetting once.
pub proof fn lemma_reset_idempotent(m: SuperMeter)
    ensures
        m.spec_reset().spec_reset() == m.spec_reset(),
{
}

} // verus!
