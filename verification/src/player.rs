//! The player unit: horizontal movement clamped to the grid, rate-limited
//! ascending shots, a timed "super" mode with a descending barrage, and hit
//! detection of its shots against the enemy formation.
use vstd::prelude::*;
use vstd::pervasive::VecAdditionalExecFns;

use crate::frame::write_cell;
use crate::frame::Frame;
use crate::invaders::at_pos;
use crate::invaders::first_at;
use crate::invaders::lemma_first_at_spec;
use crate::invaders::Invader;
use crate::invaders::Invaders;
use crate::invaders::RARE_POINTS;
use crate::shot::shot_glyph;
use crate::shot::Shot;
use crate::shot::SHOT_EXPLOSION_MS;
use crate::supermeter::SuperMeter;
use crate::timer::Timer;
use crate::NUM_COLS;
use crate::NUM_ROWS;

verus! {

/// How many shots may exist at once in ordinary play.
pub const SHOT_LIMIT_NORMAL: usize = 4;

/// How many shots may exist at once while super mode is active.
pub const SHOT_LIMIT_SUPER: usize = 15;

/// How long super mode lasts, in milliseconds.
pub const SUPER_DURATION_MS: u64 = 1000;

/// How many barrage shots `unleash_super` spawns.
pub const BARRAGE_COUNT: usize = 12;

/// Column spacing of the barrage: shot `n` (counted from 1) falls in column
/// `n * BARRAGE_SPACING`.
pub const BARRAGE_SPACING: usize = 3;

pub struct Player {
    /// Column of the player.
    pub x: usize,
    /// Row of the player, fixed to the bottom row.
    pub y: usize,
    /// The shots this player owns, oldest first.
    pub shots: Vec<Shot>,
    /// Whether super mode is currently active.
    pub super_active: bool,
    /// Counts down the remaining super-mode time while it is active.
    pub super_timer: Timer,
}

/// The descending barrage `unleash_super` spawns: `BARRAGE_COUNT` shots
/// spread across the grid at every `BARRAGE_SPACING`-th column, on the bottom
/// row, none of which build the meter.
pub open spec fn barrage() -> Seq<Shot> {
    Seq::new(
        BARRAGE_COUNT as nat,
        |n: int|
            Shot {
                x: ((n + 1) * BARRAGE_SPACING) as usize,
                y: (NUM_ROWS - 1) as usize,
                ascending: false,
                exploding: false,
                builds_meter: false,
                explode_timer: Timer {
                    duration_ms: SHOT_EXPLOSION_MS,
                    time_left_ms: SHOT_EXPLOSION_MS,
                    ready: false,
                },
            },
    )
}

/// The shots that remain after one tick: every shot advanced by the elapsed
/// time, with the expired ones pruned, in their original order.
pub open spec fn surviving_shots(shots: Seq<Shot>, delta_ms: u64) -> Seq<Shot>
    decreases shots.len(),
{
    if shots.len() == 0 {
        Seq::empty()
    } else {
        let s = shots[0].spec_update(delta_ms);
        let rest = surviving_shots(shots.drop_first(), delta_ms);
        if s.spec_dead() {
            rest
        } else {
            seq![s] + rest
        }
    }
}

/// One pass of hit detection, walking the shots in order against an army and
/// a meter: a live (non-exploding) shot over an occupied cell removes that
/// invader, scores its points, turns the shot into its exploding state, and —
/// for a meter-building shot — credits the meter once. The result is the
/// shots, the army, the meter, and the points scored, in that order.
pub open spec fn spec_detect(shots: Seq<Shot>, army: Seq<Invader>, meter: SuperMeter) -> (
    Seq<Shot>,
    Seq<Invader>,
    SuperMeter,
    int,
)
    decreases shots.len(),
{
    if shots.len() == 0 {
        (Seq::<Shot>::empty(), army, meter, 0int)
    } else {
        let s = shots[0];
        let found = if s.exploding {
            None
        } else {
            first_at(army, s.x, s.y)
        };
        match found {
            Some(j) => {
                let rest = spec_detect(
                    shots.drop_first(),
                    army.remove(j),
                    if s.builds_meter {
                        meter.spec_increment()
                    } else {
                        meter
                    },
                );
                (seq![s.spec_explode()] + rest.0, rest.1, rest.2, army[j].points + rest.3)
            },
            None => {
                let rest = spec_detect(shots.drop_first(), army, meter);
                (seq![s] + rest.0, rest.1, rest.2, rest.3)
            },
        }
    }
}

impl Player {
    /// On the grid, on the bottom row, with well-formed shots and timer.
    pub open spec fn wf(self) -> bool {
        &&& self.x < NUM_COLS
        &&& self.y == NUM_ROWS - 1
        &&& self.super_timer.wf()
        &&& forall|k: int| 0 <= k < self.shots@.len() ==> (#[trigger] self.shots@[k]).wf()
    }

    /// The shot limit currently in force: raised while super mode is active.
    pub open spec fn spec_shot_limit(self) -> usize {
        if self.super_active {
            SHOT_LIMIT_SUPER
        } else {
            SHOT_LIMIT_NORMAL
        }
    }

    /// A new player at the middle of the bottom row, with no shots and super
    /// mode off.
    pub fn new() -> (p: Player)
        ensures
            p.x == NUM_COLS / 2,
            p.y == NUM_ROWS - 1,
            p.shots@ == Seq::<Shot>::empty(),
            !p.super_active,
            p.super_timer == (Timer {
                duration_ms: SUPER_DURATION_MS,
                time_left_ms: SUPER_DURATION_MS,
                ready: false,
            }),
            p.wf(),
    {
        Player {
            x: NUM_COLS / 2,
            y: NUM_ROWS - 1,
            shots: Vec::new(),
            super_active: false,
            super_timer: Timer::from_millis(SUPER_DURATION_MS),
        }
    }

    /// Shift one column left (`-1`) or right (`1`), clamped to the grid;
    /// any other argument does nothing.
    pub fn move_in_direction(&mut self, direction: i32)
        ensures
            *final(self) == (Player {
                x: if direction == -1 && old(self).x > 0 {
                    (old(self).x - 1) as usize
                } else if direction == 1 && old(self).x < NUM_COLS - 1 {
                    (old(self).x + 1) as usize
                } else {
                    old(self).x
                },
                ..*old(self)
            }),
            old(self).wf() ==> final(self).wf(),
    {
        match direction {
            -1 => {
                if self.x > 0 {
                    self.x -= 1;
                }
            },
            1 => {
                if self.x < NUM_COLS - 1 {
                    self.x += 1;
                }
            },
            _ => {},
        }
    }

    fn get_shot_limit(&self) -> (limit: usize)
        ensures
            limit == self.spec_shot_limit(),
    {
        if self.super_active {
            SHOT_LIMIT_SUPER
        } else {
            SHOT_LIMIT_NORMAL
        }
    }

    /// Fire one ascending, meter-building shot from one row above the player,
    /// provided the shot count is below the limit in force; report whether
    /// the shot was accepted. Acceptance is owed exactly when the count is
    /// below the limit.
    pub fn shoot(&mut self) -> (accepted: bool)
        requires
            old(self).wf(),
        ensures
            accepted == (old(self).shots@.len() < old(self).spec_shot_limit()),
            accepted ==> *final(self) == (Player {
                shots: final(self).shots,
                ..*old(self)
            }) && final(self).shots@ == old(self).shots@.push(
                Shot {
                    x: old(self).x,
                    y: (old(self).y - 1) as usize,
                    ascending: true,
                    exploding: false,
                    builds_meter: true,
                    explode_timer: Timer {
                        duration_ms: SHOT_EXPLOSION_MS,
                        time_left_ms: SHOT_EXPLOSION_MS,
                        ready: false,
                    },
                },
            ),
            !accepted ==> *final(self) == *old(self),
            final(self).wf(),
    {
        if self.shots.len() < self.get_shot_limit() {
            let shot = Shot::new(self.x, self.y - 1, true);
            self.shots.push(shot);
            true
        } else {
            false
        }
    }

    /// Force super mode on, restart its timer, and spawn the descending
    /// barrage. Deliberately unguarded: calling this while already active
    /// restarts the timer and adds another full barrage — gating on meter
    /// readiness is the caller's business.
    pub fn unleash_super(&mut self)
        requires
            old(self).wf(),
        ensures
            final(self).super_active,
            final(self).super_timer == old(self).super_timer.spec_reset(),
            final(self).x == old(self).x,
            final(self).y == old(self).y,
            final(self).shots@ == old(self).shots@ + barrage(),
            final(self).wf(),
    {
        self.super_active = true;
        self.super_timer.reset();
        let ghost pre = *self;
        let mut num: usize = 1;
        while num <= BARRAGE_COUNT
            invariant
                1 <= num <= BARRAGE_COUNT + 1,
                *self == (Player { shots: self.shots, ..pre }),
                self.shots@ == pre.shots@ + barrage().take(num - 1),
            decreases BARRAGE_COUNT + 1 - num,
        {
            self.shots.push(Shot::new(num * BARRAGE_SPACING, NUM_ROWS - 1, false));
            proof {
                assert(barrage()[num - 1] == self.shots@.last());
                assert(self.shots@ =~= pre.shots@ + barrage().take(num as int));
            }
            num = num + 1;
        }
        proof {
            assert(barrage().take(BARRAGE_COUNT as int) =~= barrage());
            assert forall|k: int| 0 <= k < self.shots@.len() implies (#[trigger] self.shots@[k]).wf() by {
                if k < pre.shots@.len() {
                    assert(pre.shots@[k].wf());
                } else {
                    assert(self.shots@[k] == barrage()[k - pre.shots@.len()]);
                }
            }
        }
    }

    /// One tick: while super mode is active its timer runs, and its expiry
    /// switches super mode off; every shot advances by the elapsed time, and
    /// the expired ones are pruned.
    pub fn update(&mut self, delta_ms: u64)
        requires
            old(self).wf(),
        ensures
            final(self).x == old(self).x,
            final(self).y == old(self).y,
            ({
                let ticked = if old(self).super_active {
                    old(self).super_timer.spec_update(delta_ms)
                } else {
                    old(self).super_timer
                };
                final(self).super_timer == ticked && final(self).super_active == (old(
                    self,
                ).super_active && !ticked.ready)
            }),
            final(self).shots@ == surviving_shots(old(self).shots@, delta_ms),
            final(self).wf(),
    {
        if self.super_active {
            self.super_timer.update(delta_ms);
        }
        if self.super_timer.ready {
            self.super_active = false;
        }
        let ghost pre_shots = self.shots@;
        let mut kept: Vec<Shot> = Vec::new();
        proof {
            assert(pre_shots.skip(0) =~= pre_shots);
            assert(kept@ + surviving_shots(pre_shots, delta_ms) =~= surviving_shots(
                pre_shots,
                delta_ms,
            ));
        }
        let mut i: usize = 0;
        while i < self.shots.len()
            invariant
                i <= pre_shots.len(),
                self.shots@ == pre_shots,
                forall|k: int| 0 <= k < pre_shots.len() ==> (#[trigger] pre_shots[k]).wf(),
                forall|k: int| 0 <= k < kept@.len() ==> (#[trigger] kept@[k]).wf(),
                kept@ + surviving_shots(pre_shots.skip(i as int), delta_ms) == surviving_shots(
                    pre_shots,
                    delta_ms,
                ),
            decreases pre_shots.len() - i,
        {
            proof {
                assert(pre_shots.skip(i as int)[0] == pre_shots[i as int]);
                assert(pre_shots.skip(i as int).drop_first() =~= pre_shots.skip(i as int + 1));
            }
            let mut s = self.shots[i];
            s.update(delta_ms);
            let ghost kept_pre = kept@;
            if !s.dead() {
                kept.push(s);
                proof {
                    assert(kept@ + surviving_shots(pre_shots.skip(i as int + 1), delta_ms)
                        =~= kept_pre + surviving_shots(pre_shots.skip(i as int), delta_ms));
                }
            }
            i = i + 1;
        }
        proof {
            assert(pre_shots.skip(pre_shots.len() as int).len() == 0);
            assert(kept@ =~= kept@ + surviving_shots(pre_shots.skip(pre_shots.len() as int), delta_ms));
        }
        self.shots = kept;
    }
}

impl Player {
    /// Walk the shots in order against the formation: every live
    /// (non-exploding) shot over an occupied cell kills that invader, scores
    /// its points, turns into its exploding state, and — when meter-building
    /// — credits the meter once. An exploding shot is skipped and cannot hit
    /// twice. Returns the points scored by this call, exactly as
    /// `spec_detect` folds them up.
    pub fn detect_hits(
        &mut self,
        invaders: &mut Invaders,
        super_meter: &mut SuperMeter,
    ) -> (points: u16)
        requires
            old(self).wf(),
            old(invaders).wf(),
            old(super_meter).wf(),
        ensures
            final(self).wf(),
            final(invaders).wf(),
            final(super_meter).wf(),
            ({
                let r = spec_detect(old(self).shots@, old(invaders).army@, *old(super_meter));
                &&& final(self).shots@ == r.0
                &&& final(invaders).army@ == r.1
                &&& *final(super_meter) == r.2
                &&& points as int == r.3
            }),
            *final(self) == (Player { shots: final(self).shots, ..*old(self) }),
            *final(invaders) == (Invaders { army: final(invaders).army, ..*old(invaders) }),
    {
        let ghost g_shots = self.shots@;
        let ghost g_army = invaders.army@;
        let ghost g_meter = *super_meter;
        let ghost full = spec_detect(g_shots, g_army, g_meter);
        let mut hit_something: u16 = 0;
        let mut i: usize = 0;
        proof {
            assert(g_shots.skip(0) =~= g_shots);
        }
        while i < self.shots.len()
            invariant
                old(self).wf(),
                old(invaders).wf(),
                old(super_meter).wf(),
                g_shots == old(self).shots@,
                g_army == old(invaders).army@,
                g_meter == *old(super_meter),
                full == spec_detect(g_shots, g_army, g_meter),
                i <= g_shots.len(),
                self.shots@.len() == g_shots.len(),
                forall|k: int| i <= k < g_shots.len() ==> self.shots@[k] == g_shots[k],
                forall|k: int| 0 <= k < self.shots@.len() ==> (#[trigger] self.shots@[k]).wf(),
                invaders.wf(),
                super_meter.wf(),
                invaders.army@.len() <= g_army.len(),
                hit_something as int <= RARE_POINTS * (g_army.len() - invaders.army@.len()),
                ({
                    let rem = spec_detect(g_shots.skip(i as int), invaders.army@, *super_meter);
                    &&& full.0 == self.shots@.take(i as int) + rem.0
                    &&& full.1 == rem.1
                    &&& full.2 == rem.2
                    &&& full.3 == hit_something + rem.3
                }),
                *self == (Player { shots: self.shots, ..*old(self) }),
                *invaders == (Invaders { army: invaders.army, ..*old(invaders) }),
            decreases g_shots.len() - i,
        {
            proof {
                assert(g_shots.skip(i as int)[0] == g_shots[i as int]);
                assert(g_shots.skip(i as int).drop_first() =~= g_shots.skip(i as int + 1));
            }
            let ghost pre_shots = self.shots@;
            let ghost pre_army = invaders.army@;
            let ghost pre_meter = *super_meter;
            let ghost pre_hit = hit_something;
            let s = self.shots[i];
            if !s.exploding {
                let hit_count = invaders.kill_invader_at(s.x, s.y);
                proof {
                    lemma_first_at_spec(pre_army, s.x, s.y);
                    if first_at(pre_army, s.x, s.y) is Some {
                        let j = first_at(pre_army, s.x, s.y)->Some_0;
                        assert(at_pos(pre_army[j], s.x, s.y));
                        assert(pre_army[j].wf());
                        assert(hit_count == pre_army[j].points);
                        assert(hit_count > 0);
                    }
                }
                if hit_count > 0 {
                    hit_something = hit_something + hit_count;
                    let mut s2 = s;
                    s2.explode();
                    self.shots.set(i, s2);
                    if s.builds_meter {
                        super_meter.increment_meter();
                    }
                }
            }
            proof {
                let rem = spec_detect(g_shots.skip(i as int), pre_army, pre_meter);
                let rem2 = spec_detect(g_shots.skip(i as int + 1), invaders.army@, *super_meter);
                assert(self.shots@.take(i as int) =~= pre_shots.take(i as int));
                assert(self.shots@.take(i as int + 1) =~= self.shots@.take(i as int).push(
                    self.shots@[i as int],
                ));
                assert(rem.0 == seq![self.shots@[i as int]] + rem2.0);
                assert(full.0 =~= self.shots@.take(i as int + 1) + rem2.0);
            }
            i = i + 1;
        }
        proof {
            assert(g_shots.skip(g_shots.len() as int).len() == 0);
            assert(full.0 =~= self.shots@);
        }
        hit_something
    }
}

/// The frame cells after painting every shot of `shots`, in order.
pub open spec fn paint_shots(cells: Seq<char>, shots: Seq<Shot>) -> Seq<char>
    decreases shots.len(),
{
    if shots.len() == 0 {
        cells
    } else {
        paint_shots(
            write_cell(cells, shots[0].x, shots[0].y, shot_glyph(shots[0])),
            shots.drop_first(),
        )
    }
}

impl Player {
    /// Paint the player's glyph at its cell, then every shot over it, in
    /// order.
    pub fn draw(&self, frame: &mut Frame)
        requires
            old(frame).wf(),
            self.wf(),
        ensures
            final(frame).wf(),
            final(frame).cells@ == paint_shots(
                write_cell(old(frame).cells@, self.x, self.y, 'A'),
                self.shots@,
            ),
    {
        frame.set_cell(self.x, self.y, 'A');
        let ghost cells0 = frame.cells@;
        proof {
            assert(self.shots@.skip(0) =~= self.shots@);
        }
        let mut i: usize = 0;
        while i < self.shots.len()
            invariant
                self.wf(),
                i <= self.shots@.len(),
                frame.wf(),
                paint_shots(frame.cells@, self.shots@.skip(i as int)) == paint_shots(
                    cells0,
                    self.shots@,
                ),
            decreases self.shots@.len() - i,
        {
            proof {
                assert(self.shots@.skip(i as int)[0] == self.shots@[i as int]);
                assert(self.shots@.skip(i as int).drop_first() =~= self.shots@.skip(i as int + 1));
            }
            let s = self.shots[i];
            s.draw(frame);
            i = i + 1;
        }
        proof {
            assert(self.shots@.skip(self.shots@.len() as int).len() == 0);
        }
    }
}

impl Default for Player {
    /// A fresh player, as `new` builds it.
    fn default() -> (p: Player)
        ensures
            p.wf(),
            p.shots@ == Seq::<Shot>::empty(),
            !p.super_active,
    {
        Player::new()
    }
}

/// Fire-discipline law: whatever sequence of `shoot` calls is made, the shot
/// count — and so the live-shot count — never exceeds the limit in force:
/// a call that finds the count at the limit is rejected and changes nothing,
/// and an accepted call raises the count to at most the limit.
pub proof fn lemma_shoot_respects_limit(pre: Player, post: Player, accepted: bool)
    requires
        accepted == (pre.shots@.len() < pre.spec_shot_limit()),
        post.super_active == pre.super_active,
        post.shots@.len() == if accepted {
            pre.shots@.len() as int + 1
        } else {
            pre.shots@.len() as int
        },
        pre.shots@.len() <= pre.spec_shot_limit(),
    ensures
        post.shots@.len() <= post.spec_shot_limit(),
{
}

} // verus!
