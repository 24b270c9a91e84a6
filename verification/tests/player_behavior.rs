use invaders_core::invaders::Invaders;
use invaders_core::player::Player;
use invaders_core::player::BARRAGE_COUNT;
use invaders_core::player::SHOT_LIMIT_NORMAL;
use invaders_core::player::SHOT_LIMIT_SUPER;
use invaders_core::shot::Shot;
use invaders_core::supermeter::SuperMeter;
use invaders_core::NUM_COLS;
use invaders_core::NUM_ROWS;

#[test]
fn player_starts_in_the_middle_of_the_bottom_row() {
    let p = Player::new();
    assert_eq!(p.x, NUM_COLS / 2);
    assert_eq!(p.y, NUM_ROWS - 1);
    assert!(p.shots.is_empty());
    assert!(!p.super_active);
    assert_eq!(p.super_timer.duration_ms, 1000);
}

#[test]
fn movement_shifts_one_column_and_clamps_at_the_edges() {
    let mut p = Player::new();
    let start = p.x;
    p.move_in_direction(-1);
    assert_eq!(p.x, start - 1);
    p.move_in_direction(1);
    assert_eq!(p.x, start);
    // anything but the two unit directions is ignored
    p.move_in_direction(0);
    p.move_in_direction(7);
    p.move_in_direction(-3);
    assert_eq!(p.x, start);
    for _ in 0..NUM_COLS {
        p.move_in_direction(-1);
    }
    assert_eq!(p.x, 0);
    p.move_in_direction(-1);
    assert_eq!(p.x, 0);
    for _ in 0..NUM_COLS + 5 {
        p.move_in_direction(1);
    }
    assert_eq!(p.x, NUM_COLS - 1);
}

#[test]
fn shooting_is_capped_at_four_in_ordinary_play() {
    let mut p = Player::new();
    for n in 1..=SHOT_LIMIT_NORMAL {
        assert!(p.shoot());
        assert_eq!(p.shots.len(), n);
    }
    assert!(!p.shoot());
    assert_eq!(p.shots.len(), SHOT_LIMIT_NORMAL);
    let s = &p.shots[0];
    assert_eq!(s.x, p.x);
    assert_eq!(s.y, p.y - 1);
    assert!(s.ascending);
    assert!(s.builds_meter);
    assert!(!s.exploding);
}

#[test]
fn unleash_super_spawns_the_barrage_and_raises_the_limit() {
    let mut p = Player::new();
    p.unleash_super();
    assert!(p.super_active);
    assert_eq!(p.shots.len(), BARRAGE_COUNT);
    for (n, s) in p.shots.iter().enumerate() {
        assert_eq!(s.x, (n + 1) * 3);
        assert_eq!(s.y, NUM_ROWS - 1);
        assert!(!s.ascending);
        assert!(!s.builds_meter);
    }
    // unguarded on purpose: a second unleash stacks another barrage
    p.unleash_super();
    assert_eq!(p.shots.len(), 2 * BARRAGE_COUNT);
}

#[test]
fn super_mode_allows_fifteen_shots_then_rejects_the_sixteenth() {
    let mut p = Player::new();
    p.unleash_super();
    // the barrage spawns on the bottom row, its target edge, so one tick
    // prunes it
    p.update(1);
    assert!(p.shots.is_empty());
    assert!(p.super_active);
    for n in 1..=SHOT_LIMIT_SUPER {
        assert!(p.shoot(), "shot {} should be accepted", n);
    }
    assert!(!p.shoot());
    assert_eq!(p.shots.len(), SHOT_LIMIT_SUPER);
}

#[test]
fn super_mode_expires_after_its_duration() {
    let mut p = Player::new();
    p.unleash_super();
    p.update(999);
    assert!(p.super_active);
    p.update(1);
    assert!(!p.super_active);
}

#[test]
fn shots_travel_one_row_per_tick_toward_their_edge() {
    let mut p = Player::new();
    assert!(p.shoot());
    let y0 = p.shots[0].y;
    p.update(5);
    assert_eq!(p.shots[0].y, y0 - 1);
    p.update(5);
    assert_eq!(p.shots[0].y, y0 - 2);
    // an ascending shot expires at the top edge
    for _ in 0..y0 {
        p.update(5);
    }
    assert!(p.shots.is_empty());
}

#[test]
fn exploding_shots_freeze_and_expire_after_the_countdown() {
    let mut s = Shot::new(10, 10, true);
    s.explode();
    assert!(s.exploding);
    let mut p = Player { shots: vec![s], ..Player::new() };
    p.update(100);
    assert_eq!(p.shots.len(), 1);
    assert_eq!(p.shots[0].y, 10);
    p.update(150);
    assert!(p.shots.is_empty());
}

#[test]
fn a_shot_over_an_enemy_scores_explodes_and_credits_the_meter() {
    let mut inv = Invaders::new();
    let mut meter = SuperMeter::new();
    let mut p = Player::new();
    // the player's column holds enemies at rows 2, 4, 6, 8
    let target = inv
        .army
        .iter()
        .find(|e| e.x == p.x && e.y == 2)
        .expect("an enemy spawns at the player's column")
        .clone();
    assert!(p.shoot());
    // carry the shot up to the target's row
    while p.shots[0].y > 2 {
        p.update(1);
    }
    let count = inv.army.len();
    let scored = p.detect_hits(&mut inv, &mut meter);
    assert_eq!(scored, target.points);
    assert_eq!(inv.army.len(), count - 1);
    assert!(inv.army.iter().all(|e| !(e.x == p.x && e.y == 2)));
    assert!(p.shots[0].exploding);
    assert_eq!(meter.meter, 1);
    // an exploding shot cannot hit twice
    let again = p.detect_hits(&mut inv, &mut meter);
    assert_eq!(again, 0);
    assert_eq!(meter.meter, 1);
}

#[test]
fn a_miss_scores_nothing_and_leaves_everything_alone() {
    let mut inv = Invaders::new();
    let mut meter = SuperMeter::new();
    let mut p = Player::new();
    assert!(p.shoot());
    // the shot sits at row 18, below every enemy
    let scored = p.detect_hits(&mut inv, &mut meter);
    assert_eq!(scored, 0);
    assert!(!p.shots[0].exploding);
    assert_eq!(meter.meter, 0);
    assert_eq!(inv.army.len(), inv.total_count);
}

#[test]
fn a_hit_by_a_barrage_shot_does_not_build_the_meter() {
    let mut inv = Invaders::new();
    let mut meter = SuperMeter::new();
    // a descending, non-building shot placed straight onto an enemy cell
    let s = Shot::new(2, 2, false);
    let mut p = Player { shots: vec![s], ..Player::new() };
    let scored = p.detect_hits(&mut inv, &mut meter);
    assert!(scored > 0);
    assert!(p.shots[0].exploding);
    assert_eq!(meter.meter, 0);
}
