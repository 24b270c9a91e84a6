//! The enemy formation: a set of invaders on the grid that march sideways in
//! lockstep, descend one row whenever they touch a horizontal edge, and speed
//! up with every descent.
use vstd::prelude::*;

use rand::Rng;

use crate::frame::write_cell;
use crate::frame::Frame;
use crate::timer::Timer;
use crate::NUM_COLS;
use crate::NUM_ROWS;

verus! {

/// Percentage chance (out of 100) that a spawned invader is rare.
pub const RARE_ENEMY_CHANCE: usize = 15;

/// Point value of a rare invader.
pub const RARE_POINTS: u16 = 5;

/// Point value of an ordinary invader.
pub const NORMAL_POINTS: u16 = 1;

/// Starting interval between marching steps, in milliseconds.
pub const MOVE_INTERVAL_START_MS: u64 = 2000;

/// How much each descent shortens the marching interval, in milliseconds.
pub const MOVE_INTERVAL_STEP_MS: u64 = 250;

/// The marching interval never drops below this floor, in milliseconds.
pub const MOVE_INTERVAL_MIN_MS: u64 = 250;

#[derive(Clone, Copy, PartialEq, Eq, Structural, Debug)]
pub struct Invader {
    /// Column of the invader.
    pub x: usize,
    /// Row of the invader.
    pub y: usize,
    /// Chosen probabilistically at spawn; a rare invader is worth more.
    pub is_rare: bool,
    /// Point value credited when this invader is killed.
    pub points: u16,
}

impl Invader {
    /// On the grid, with the point value the rare flag dictates.
    pub open spec fn wf(self) -> bool {
        &&& self.x < NUM_COLS
        &&& self.y < NUM_ROWS
        &&& self.points == if self.is_rare {
            RARE_POINTS
        } else {
            NORMAL_POINTS
        }
    }

    /// The invader spawned at `(x, y)` for a percentage roll: rolls at or
    /// below `RARE_ENEMY_CHANCE` come out rare and worth `RARE_POINTS`, all
    /// others ordinary and worth `NORMAL_POINTS`.
    pub fn from_roll(x: usize, y: usize, roll: usize) -> (inv: Invader)
        ensures
            inv == (Invader {
                x,
                y,
                is_rare: roll <= RARE_ENEMY_CHANCE,
                points: if roll <= RARE_ENEMY_CHANCE {
                    RARE_POINTS
                } else {
                    NORMAL_POINTS
                },
            }),
            x < NUM_COLS && y < NUM_ROWS ==> inv.wf(),
    {
        let is_rare: bool = roll <= RARE_ENEMY_CHANCE;
        let points: u16 = if is_rare {
            RARE_POINTS
        } else {
            NORMAL_POINTS
        };
        Invader { x, y, is_rare, points }
    }
}

/// Whether `inv` occupies the cell `(x, y)`.
pub open spec fn at_pos(inv: Invader, x: usize, y: usize) -> bool {
    inv.x == x && inv.y == y
}

/// Whether two invaders occupy the same cell.
pub open spec fn same_pos(a: Invader, b: Invader) -> bool {
    a.x == b.x && a.y == b.y
}

/// No two invaders of `army` share a cell.
pub open spec fn distinct_positions(army: Seq<Invader>) -> bool {
    forall|k1: int, k2: int|
        0 <= k1 < k2 < army.len() ==> !(#[trigger] same_pos(army[k1], army[k2]))
}

/// Whether some invader of `army` occupies `(x, y)`.
pub open spec fn has_at(army: Seq<Invader>, x: usize, y: usize) -> bool {
    exists|k: int| 0 <= k < army.len() && #[trigger] at_pos(army[k], x, y)
}

/// Index of the first invader of `army` at `(x, y)`, if any.
pub open spec fn first_at(army: Seq<Invader>, x: usize, y: usize) -> Option<int>
    decreases army.len(),
{
    if army.len() == 0 {
        None
    } else if at_pos(army[0], x, y) {
        Some(0int)
    } else {
        match first_at(army.drop_first(), x, y) {
            Some(i) => Some(i + 1),
            None => None,
        }
    }
}

/// What `first_at` finds: the returned index is the least one whose invader
/// occupies the cell, and `None` means the cell is free.
pub proof fn lemma_first_at_spec(army: Seq<Invader>, x: usize, y: usize)
    ensures
        match first_at(army, x, y) {
            Some(i) => 0 <= i < army.len() && at_pos(army[i], x, y) && (forall|k: int|
                0 <= k < i ==> !#[trigger] at_pos(army[k], x, y)),
            None => forall|k: int| 0 <= k < army.len() ==> !#[trigger] at_pos(army[k], x, y),
        },
    decreases army.len(),
{
    if army.len() > 0 && !at_pos(army[0], x, y) {
        lemma_first_at_spec(army.drop_first(), x, y);
        assert forall|k: int| 1 <= k < army.len() implies army.drop_first()[k - 1] == army[k] by {}
    }
}

/// The cell `(x, y)` qualifies for a spawned invader: interior columns, the
/// upper band of rows, and even coordinates in both directions.
pub open spec fn spawn_cell(x: usize, y: usize) -> bool {
    &&& x > 1
    &&& x < NUM_COLS - 2
    &&& y > 0
    &&& y < 9
    &&& x % 2 == 0
    &&& y % 2 == 0
}

/// Every invader one row further down.
pub open spec fn step_down(army: Seq<Invader>) -> Seq<Invader> {
    army.map_values(|inv: Invader| Invader { y: (inv.y + 1) as usize, ..inv })
}

/// Every invader one column toward the marching direction.
pub open spec fn step_side(army: Seq<Invader>, right: bool) -> Seq<Invader> {
    army.map_values(
        |inv: Invader|
            Invader {
                x: if right {
                    (inv.x + 1) as usize
                } else {
                    (inv.x - 1) as usize
                },
                ..inv
            },
    )
}

/// The marching interval after a descent: shortened by one step, floored.
pub open spec fn next_move_interval(d: u64) -> u64 {
    if d >= MOVE_INTERVAL_MIN_MS + MOVE_INTERVAL_STEP_MS {
        (d - MOVE_INTERVAL_STEP_MS) as u64
    } else {
        MOVE_INTERVAL_MIN_MS
    }
}

pub struct Invaders {
    /// The invaders still alive.
    pub army: Vec<Invader>,
    /// How many invaders the formation spawned with; never decremented.
    pub total_count: usize,
    /// Interval timer that paces the lockstep marching.
    pub move_timer: Timer,
    /// Current horizontal direction of travel: `1` right, `-1` left.
    pub direction: i32,
}

impl Invaders {
    /// Invariant of the formation: every invader is on the grid with a lawful
    /// point value, no two share a cell, the direction is one of the two
    /// horizontal units, and the marching timer is a well-formed countdown of
    /// at least the floor interval that is never left in its fired state.
    pub open spec fn wf(self) -> bool {
        &&& forall|k: int| 0 <= k < self.army@.len() ==> (#[trigger] self.army@[k]).wf()
        &&& distinct_positions(self.army@)
        &&& self.army@.len() <= NUM_COLS * NUM_ROWS
        &&& self.direction == 1 || self.direction == -1
        &&& self.move_timer.wf()
        &&& !self.move_timer.ready
        &&& self.move_timer.duration_ms >= MOVE_INTERVAL_MIN_MS
    }

    /// Whether the formation, marching leftward, touches the left edge. An
    /// empty formation counts as touching (the extreme of no invaders reads
    /// as column zero).
    pub open spec fn at_left_edge(self) -> bool {
        self.army@.len() == 0 || exists|k: int|
            0 <= k < self.army@.len() && (#[trigger] self.army@[k]).x == 0
    }

    /// Whether the formation, marching rightward, touches the right edge.
    pub open spec fn at_right_edge(self) -> bool {
        exists|k: int| 0 <= k < self.army@.len() && (#[trigger] self.army@[k]).x == NUM_COLS - 1
    }

    /// Whether a due marching step flips the direction and descends instead.
    pub open spec fn spec_flips(self) -> bool {
        if self.direction == -1 {
            self.at_left_edge()
        } else {
            self.at_right_edge()
        }
    }

    /// Whether any invader sits at or past the last playable row.
    pub open spec fn spec_reached_bottom(self) -> bool {
        exists|k: int| 0 <= k < self.army@.len() && (#[trigger] self.army@[k]).y >= NUM_ROWS - 1
    }
}

/// Relies on `rand::Rng::gen_range` on `rand::thread_rng()`: a value drawn
/// from `0..100`. Nothing is promised of any one draw beyond its range.
#[verifier::external_body]
fn random_percent_roll() -> (r: usize)
    ensures
        r < 100,
{
    rand::thread_rng().gen_range(0..100)
}

impl Invaders {
    /// Populate the formation: one invader on every qualifying cell, each
    /// rolled rare with `RARE_ENEMY_CHANCE` percent probability. Positions
    /// are deterministic; only the rare flags (and so the point values) vary
    /// between constructions.
    pub fn new() -> (inv: Invaders)
        ensures
            inv.wf(),
            // exactly the qualifying cells are occupied
            forall|k: int|
                0 <= k < inv.army@.len() ==> spawn_cell(
                    (#[trigger] inv.army@[k]).x,
                    inv.army@[k].y,
                ),
            forall|x: usize, y: usize| #[trigger]
                spawn_cell(x, y) ==> has_at(inv.army@, x, y),
            inv.total_count == inv.army@.len(),
            inv.direction == 1,
            inv.move_timer == (Timer {
                duration_ms: MOVE_INTERVAL_START_MS,
                time_left_ms: MOVE_INTERVAL_START_MS,
                ready: false,
            }),
    {
        let mut army: Vec<Invader> = Vec::new();
        let mut x: usize = 0;
        while x < NUM_COLS
            invariant
                x <= NUM_COLS,
                army@.len() <= x * NUM_ROWS,
                forall|k: int| 0 <= k < army@.len() ==> (#[trigger] army@[k]).wf(),
                forall|k: int|
                    0 <= k < army@.len() ==> spawn_cell((#[trigger] army@[k]).x, army@[k].y)
                        && army@[k].x < x,
                forall|a: usize, b: usize|
                    a < x && #[trigger] spawn_cell(a, b) ==> has_at(army@, a, b),
                distinct_positions(army@),
            decreases NUM_COLS - x,
        {
            let mut y: usize = 0;
            while y < NUM_ROWS
                invariant
                    x < NUM_COLS,
                    y <= NUM_ROWS,
                    army@.len() <= x * NUM_ROWS + y,
                    forall|k: int| 0 <= k < army@.len() ==> (#[trigger] army@[k]).wf(),
                    forall|k: int|
                        0 <= k < army@.len() ==> spawn_cell((#[trigger] army@[k]).x, army@[k].y)
                            && (army@[k].x < x || (army@[k].x == x && army@[k].y < y)),
                    forall|a: usize, b: usize|
                        a < x && #[trigger] spawn_cell(a, b) ==> has_at(army@, a, b),
                    forall|b: usize| b < y && #[trigger] spawn_cell(x, b) ==> has_at(army@, x, b),
                    distinct_positions(army@),
                decreases NUM_ROWS - y,
            {
                if x > 1 && x < NUM_COLS - 2 && y > 0 && y < 9 && x % 2 == 0 && y % 2 == 0 {
                    let roll = random_percent_roll();
                    let ghost pre = army@;
                    army.push(Invader::from_roll(x, y, roll));
                    proof {
                        assert forall|a: usize, b: usize|
                            a < x && #[trigger] spawn_cell(a, b) implies has_at(army@, a, b) by {
                            assert(has_at(pre, a, b));
                            let k = choose|k: int| 0 <= k < pre.len() && at_pos(pre[k], a, b);
                            assert(at_pos(army@[k], a, b));
                        }
                        assert forall|b: usize| b < y + 1 && #[trigger] spawn_cell(x, b) implies has_at(
                            army@,
                            x,
                            b,
                        ) by {
                            if b < y {
                                assert(has_at(pre, x, b));
                                let k = choose|k: int| 0 <= k < pre.len() && at_pos(pre[k], x, b);
                                assert(at_pos(army@[k], x, b));
                            } else {
                                assert(at_pos(army@[army@.len() - 1], x, b));
                            }
                        }
                    }
                }
                y = y + 1;
            }
            x = x + 1;
        }
        let total_count = army.len();
        proof {
            assert(NUM_COLS * NUM_ROWS == 800) by (nonlinear_arith);
        }
        Invaders {
            army,
            total_count,
            move_timer: Timer::from_millis(MOVE_INTERVAL_START_MS),
            direction: 1,
        }
    }

    /// Advance the marching timer; when it is due, march the formation. A
    /// formation touching the edge it marches toward flips direction,
    /// descends one row, and shortens the marching interval by one step
    /// (never below the floor); otherwise the whole formation moves one
    /// column in the current direction. Returns true exactly when the timer
    /// was due, that is, when any state beyond the timer changed.
    ///
    /// Every invader stays within the grid: the caller stops updating once
    /// `reached_bottom` reports the game over, which the precondition
    /// reflects.
    pub fn update(&mut self, delta_ms: u64) -> (moved: bool)
        requires
            old(self).wf(),
            !old(self).spec_reached_bottom(),
        ensures
            final(self).wf(),
            moved == old(self).move_timer.spec_update(delta_ms).ready,
            final(self).total_count == old(self).total_count,
            !moved ==> *final(self) == (Invaders {
                move_timer: old(self).move_timer.spec_update(delta_ms),
                ..*old(self)
            }),
            moved && old(self).spec_flips() ==> final(self).direction == -old(self).direction
                && final(self).army@ == step_down(old(self).army@) && final(self).move_timer == (
            Timer {
                duration_ms: next_move_interval(old(self).move_timer.duration_ms),
                time_left_ms: next_move_interval(old(self).move_timer.duration_ms),
                ready: false,
            }),
            moved && !old(self).spec_flips() ==> final(self).direction == old(self).direction
                && final(self).army@ == step_side(old(self).army@, old(self).direction == 1)
                && final(self).move_timer == old(self).move_timer.spec_reset(),
            // the marching interval only ever shortens, and never below the floor
            final(self).move_timer.duration_ms <= old(self).move_timer.duration_ms,
            final(self).move_timer.duration_ms >= MOVE_INTERVAL_MIN_MS,
    {
        self.move_timer.update(delta_ms);
        if self.move_timer.ready {
            self.move_timer.reset();
            let mut downwards = false;
            if self.direction == -1 {
                let mut at_edge = self.army.len() == 0;
                let mut i: usize = 0;
                while i < self.army.len()
                    invariant
                        i <= self.army@.len(),
                        at_edge == (self.army@.len() == 0 || exists|k: int|
                            0 <= k < i && (#[trigger] self.army@[k]).x == 0),
                    decreases self.army@.len() - i,
                {
                    if self.army[i].x == 0 {
                        at_edge = true;
                    }
                    i = i + 1;
                }
                if at_edge {
                    self.direction = 1;
                    downwards = true;
                }
            } else {
                let mut at_edge = false;
                let mut i: usize = 0;
                while i < self.army.len()
                    invariant
                        i <= self.army@.len(),
                        at_edge == exists|k: int|
                            0 <= k < i && (#[trigger] self.army@[k]).x == NUM_COLS - 1,
                    decreases self.army@.len() - i,
                {
                    if self.army[i].x == NUM_COLS - 1 {
                        at_edge = true;
                    }
                    i = i + 1;
                }
                if at_edge {
                    self.direction = -1;
                    downwards = true;
                }
            }
            let ghost pre = self.army@;
            if downwards {
                let d = self.move_timer.duration_ms;
                let new_duration = if d >= MOVE_INTERVAL_MIN_MS + MOVE_INTERVAL_STEP_MS {
                    d - MOVE_INTERVAL_STEP_MS
                } else {
                    MOVE_INTERVAL_MIN_MS
                };
                self.move_timer = Timer::from_millis(new_duration);
                let ghost mid = *self;
                let mut i: usize = 0;
                while i < self.army.len()
                    invariant
                        i <= self.army@.len(),
                        self.army@.len() == pre.len(),
                        self.direction == mid.direction,
                        self.move_timer == mid.move_timer,
                        self.total_count == mid.total_count,
                        forall|k: int| 0 <= k < pre.len() ==> (#[trigger] pre[k]).y < NUM_ROWS - 1,
                        forall|k: int|
                            0 <= k < i ==> #[trigger] self.army@[k] == (Invader {
                                y: (pre[k].y + 1) as usize,
                                ..pre[k]
                            }),
                        forall|k: int| i <= k < pre.len() ==> #[trigger] self.army@[k] == pre[k],
                    decreases self.army@.len() - i,
                {
                    let inv = self.army[i];
                    self.army.set(i, Invader { y: inv.y + 1, ..inv });
                    i = i + 1;
                }
                proof {
                    assert(self.army@ =~= step_down(pre));
                }
            } else {
                let going_right = self.direction == 1;
                let ghost mid = *self;
                let mut i: usize = 0;
                while i < self.army.len()
                    invariant
                        i <= self.army@.len(),
                        self.army@.len() == pre.len(),
                        self.direction == mid.direction,
                        self.move_timer == mid.move_timer,
                        self.total_count == mid.total_count,
                        going_right == (self.direction == 1),
                        going_right ==> forall|k: int|
                            0 <= k < pre.len() ==> (#[trigger] pre[k]).x < NUM_COLS - 1,
                        !going_right ==> forall|k: int|
                            0 <= k < pre.len() ==> (#[trigger] pre[k]).x >= 1,
                        forall|k: int|
                            0 <= k < i ==> #[trigger] self.army@[k] == (Invader {
                                x: if going_right {
                                    (pre[k].x + 1) as usize
                                } else {
                                    (pre[k].x - 1) as usize
                                },
                                ..pre[k]
                            }),
                        forall|k: int| i <= k < pre.len() ==> #[trigger] self.army@[k] == pre[k],
                    decreases self.army@.len() - i,
                {
                    let inv = self.army[i];
                    let moved_x = if going_right {
                        inv.x + 1
                    } else {
                        inv.x - 1
                    };
                    self.army.set(i, Invader { x: moved_x, ..inv });
                    i = i + 1;
                }
                proof {
                    assert(self.army@ =~= step_side(pre, going_right));
                }
            }
            proof {
                assert forall|k1: int, k2: int|
                    0 <= k1 < k2 < self.army@.len() implies !(#[trigger] same_pos(
                    self.army@[k1],
                    self.army@[k2],
                )) by {
                    assert(!same_pos(pre[k1], pre[k2]));
                }
            }
            true
        } else {
            false
        }
    }

    /// True once every invader has been killed.
    pub fn all_killed(&self) -> (r: bool)
        ensures
            r == (self.army@.len() == 0),
    {
        self.army.len() == 0
    }

    /// True once any invader sits at or past the last playable row — the
    /// formation has reached the player and the game is over.
    pub fn reached_bottom(&self) -> (r: bool)
        ensures
            r == self.spec_reached_bottom(),
    {
        let mut i: usize = 0;
        let mut found = false;
        while i < self.army.len()
            invariant
                i <= self.army@.len(),
                found == exists|k: int|
                    0 <= k < i && (#[trigger] self.army@[k]).y >= NUM_ROWS - 1,
            decreases self.army@.len() - i,
        {
            if self.army[i].y >= NUM_ROWS - 1 {
                found = true;
            }
            i = i + 1;
        }
        found
    }

    /// Remove the invader at exactly `(x, y)` — the formation holds at most
    /// one per cell — and return its point value; return 0, changing
    /// nothing, when the cell is free. Killing the same cell again therefore
    /// returns 0 until an invader marches back onto it.
    pub fn kill_invader_at(&mut self, x: usize, y: usize) -> (points: u16)
        requires
            old(self).wf(),
        ensures
            final(self).wf(),
            final(self).total_count == old(self).total_count,
            final(self).direction == old(self).direction,
            final(self).move_timer == old(self).move_timer,
            match first_at(old(self).army@, x, y) {
                Some(i) => points == old(self).army@[i].points && final(self).army@ == old(
                    self,
                ).army@.remove(i),
                None => points == 0 && final(self).army@ == old(self).army@,
            },
            // a hit always scores, a miss never does
            (points == 0) <==> !has_at(old(self).army@, x, y),
            // the cell is free afterwards, so an immediate second kill there returns 0
            !has_at(final(self).army@, x, y),
    {
        let ghost pre = self.army@;
        let mut i: usize = 0;
        while i < self.army.len()
            invariant
                old(self).wf(),
                pre == old(self).army@,
                i <= self.army@.len(),
                self.army@ == pre,
                self.total_count == old(self).total_count,
                self.direction == old(self).direction,
                self.move_timer == old(self).move_timer,
                forall|k: int| 0 <= k < i ==> !#[trigger] at_pos(pre[k], x, y),
            decreases self.army@.len() - i,
        {
            if self.army[i].x == x && self.army[i].y == y {
                let points = self.army[i].points;
                proof {
                    lemma_first_at_spec(pre, x, y);
                    let j = first_at(pre, x, y);
                    assert(at_pos(pre[i as int], x, y));
                    assert(j is Some);
                    let ji = j->Some_0;
                    if ji < i {
                        assert(!at_pos(pre[ji], x, y));
                    }
                    if ji > i {
                        assert(!at_pos(pre[i as int], x, y));
                    }
                    assert(ji == i);
                }
                self.army.remove(i);
                proof {
                    pre.remove_ensures(i as int);
                    let removed = pre.remove(i as int);
                    assert(self.army@ == removed);
                    assert(at_pos(pre[i as int], x, y));
                    assert forall|k: int|
                        0 <= k < self.army@.len() implies !#[trigger] at_pos(
                        self.army@[k],
                        x,
                        y,
                    ) by {
                        if k < i {
                            assert(removed[k] == pre[k]);
                        } else {
                            assert(removed[k] == pre[k + 1]);
                            if at_pos(pre[k + 1], x, y) {
                                assert(same_pos(pre[i as int], pre[k + 1]));
                            }
                        }
                    }
                    assert forall|k1: int, k2: int|
                        0 <= k1 < k2 < self.army@.len() implies !(#[trigger] same_pos(
                        self.army@[k1],
                        self.army@[k2],
                    )) by {
                        let o1: int = if k1 < i { k1 } else { k1 + 1 };
                        let o2: int = if k2 < i { k2 } else { k2 + 1 };
                        assert(removed[k1] == pre[o1]);
                        assert(removed[k2] == pre[o2]);
                        assert(!same_pos(pre[o1], pre[o2]));
                    }
                }
                return points;
            }
            i = i + 1;
        }
        proof {
            lemma_first_at_spec(pre, x, y);
        }
        0
    }
}

/// Which of the two marching animation frames the whole formation shows:
/// the early frame while more than half of the marching interval remains.
pub open spec fn march_early(t: Timer) -> bool {
    t.time_left_ms > t.duration_ms / 2
}

/// The glyph an invader renders as, by rarity and animation frame.
pub open spec fn invader_glyph(is_rare: bool, early: bool) -> char {
    if early {
        if is_rare {
            'o'
        } else {
            'x'
        }
    } else {
        if is_rare {
            '0'
        } else {
            '+'
        }
    }
}

/// The frame cells after painting every invader of `army`, in order, with
/// the glyph of the given animation frame.
pub open spec fn paint_invaders(cells: Seq<char>, army: Seq<Invader>, early: bool) -> Seq<char>
    decreases army.len(),
{
    if army.len() == 0 {
        cells
    } else {
        paint_invaders(
            write_cell(cells, army[0].x, army[0].y, invader_glyph(army[0].is_rare, early)),
            army.drop_first(),
            early,
        )
    }
}

impl Invaders {
    /// Paint every invader into the frame. The glyph depends on rarity and
    /// on the shared marching timer — its remaining fraction above one half
    /// selects the early animation frame — so the whole formation animates
    /// in lockstep with no per-invader state.
    pub fn draw(&self, frame: &mut Frame)
        requires
            old(frame).wf(),
            self.wf(),
        ensures
            final(frame).wf(),
            final(frame).cells@ == paint_invaders(
                old(frame).cells@,
                self.army@,
                march_early(self.move_timer),
            ),
    {
        let early = self.move_timer.time_left_ms > self.move_timer.duration_ms / 2;
        let ghost cells0 = frame.cells@;
        proof {
            assert(self.army@.skip(0) =~= self.army@);
        }
        let mut i: usize = 0;
        while i < self.army.len()
            invariant
                self.wf(),
                early == march_early(self.move_timer),
                i <= self.army@.len(),
                frame.wf(),
                paint_invaders(frame.cells@, self.army@.skip(i as int), early) == paint_invaders(
                    cells0,
                    self.army@,
                    early,
                ),
            decreases self.army@.len() - i,
        {
            proof {
                assert(self.army@.skip(i as int)[0] == self.army@[i as int]);
                assert(self.army@.skip(i as int).drop_first() =~= self.army@.skip(i as int + 1));
            }
            let inv = self.army[i];
            let glyph = if early {
                if inv.is_rare {
                    'o'
                } else {
                    'x'
                }
            } else {
                if inv.is_rare {
                    '0'
                } else {
                    '+'
                }
            };
            frame.set_cell(inv.x, inv.y, glyph);
            i = i + 1;
        }
        proof {
            assert(self.army@.skip(self.army@.len() as int).len() == 0);
        }
    }
}

impl Default for Invaders {
    /// A freshly populated formation, as `new` builds it.
    fn default() -> (inv: Invaders)
        ensures
            inv.wf(),
            inv.total_count == inv.army@.len(),
            inv.direction == 1,
    {
        Invaders::new()
    }
}

/// One observation of the marching interval across a due update: it either
/// stayed (a sideways step or a not-yet-due tick) or shortened by one step
/// after a descent.
pub open spec fn interval_step(d1: u64, d2: u64) -> bool {
    d2 == d1 || d2 == next_move_interval(d1)
}

/// Acceleration law: across any run of updates — `intervals` being the
/// marching-timer durations observed after each one — the interval never
/// grows, and once at or above the floor it never drops below it.
pub proof fn lemma_descent_accelerates(intervals: Seq<u64>)
    requires
        intervals.len() > 0,
        forall|i: int|
            0 <= i < intervals.len() - 1 ==> #[trigger] interval_step(
                intervals[i],
                intervals[i + 1],
            ),
        intervals[0] >= MOVE_INTERVAL_MIN_MS,
    ensures
        forall|i: int, j: int| 0 <= i <= j < intervals.len() ==> intervals[j] <= intervals[i],
        forall|i: int| 0 <= i < intervals.len() ==> intervals[i] >= MOVE_INTERVAL_MIN_MS,
    decreases intervals.len(),
{
    if intervals.len() > 1 {
        let rest = intervals.drop_first();
        assert forall|i: int|
            0 <= i < rest.len() - 1 implies #[trigger] interval_step(rest[i], rest[i + 1]) by {
            assert(rest[i] == intervals[i + 1]);
            assert(rest[i + 1] == intervals[i + 2]);
            assert(interval_step(intervals[i + 1], intervals[i + 1 + 1]));
        }
        assert(interval_step(intervals[0], intervals[0int + 1]));
        assert(rest[0] == intervals[1]);
        lemma_descent_accelerates(rest);
        assert forall|i: int, j: int|
            0 <= i <= j < intervals.len() implies intervals[j] <= intervals[i] by {
            if i > 0 {
                assert(rest[i - 1] == intervals[i]);
                assert(rest[j - 1] == intervals[j]);
            } else if j > 0 {
                assert(rest[j - 1] <= rest[0]);
                assert(rest[j - 1] == intervals[j]);
            }
        }
        assert forall|i: int|
            0 <= i < intervals.len() implies intervals[i] >= MOVE_INTERVAL_MIN_MS by {
            if i > 0 {
                assert(rest[i - 1] == intervals[i]);
            }
        }
    }
}

} // verus!
