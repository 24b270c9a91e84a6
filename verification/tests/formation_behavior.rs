use invaders_core::invaders::Invader;
use invaders_core::invaders::Invaders;
use invaders_core::invaders::RARE_ENEMY_CHANCE;
use invaders_core::invaders::NORMAL_POINTS;
use invaders_core::invaders::RARE_POINTS;
use invaders_core::NUM_COLS;
use invaders_core::NUM_ROWS;

fn xs(inv: &Invaders) -> Vec<usize> {
    inv.army.iter().map(|i| i.x).collect()
}

fn ys(inv: &Invaders) -> Vec<usize> {
    inv.army.iter().map(|i| i.y).collect()
}

#[test]
fn formation_spawns_on_interior_even_cells_only() {
    let inv = Invaders::new();
    assert!(!inv.army.is_empty());
    assert_eq!(inv.total_count, inv.army.len());
    // interior even columns: 2,4,...,36 (18); rows 2,4,6,8 (4)
    assert_eq!(inv.army.len(), 18 * 4);
    for e in inv.army.iter() {
        assert!(e.x > 1 && e.x < NUM_COLS - 2);
        assert!(e.y > 0 && e.y < 9);
        assert_eq!(e.x % 2, 0);
        assert_eq!(e.y % 2, 0);
        // the rare roll decides the point value and nothing else
        if e.is_rare {
            assert_eq!(e.points, RARE_POINTS);
        } else {
            assert_eq!(e.points, NORMAL_POINTS);
        }
    }
    // at most one invader per cell
    let mut seen: Vec<(usize, usize)> = Vec::new();
    for e in inv.army.iter() {
        assert!(!seen.contains(&(e.x, e.y)));
        seen.push((e.x, e.y));
    }
    assert_eq!(inv.direction, 1);
    assert_eq!(inv.move_timer.duration_ms, 2000);
}

#[test]
fn the_rare_roll_decides_rarity_and_points() {
    let rare = Invader::from_roll(4, 2, RARE_ENEMY_CHANCE);
    assert!(rare.is_rare);
    assert_eq!(rare.points, RARE_POINTS);
    assert_eq!((rare.x, rare.y), (4, 2));

    let common = Invader::from_roll(4, 2, RARE_ENEMY_CHANCE + 1);
    assert!(!common.is_rare);
    assert_eq!(common.points, NORMAL_POINTS);

    let zero = Invader::from_roll(0, 0, 0);
    assert!(zero.is_rare);
}

#[test]
fn update_before_the_interval_is_due_changes_nothing() {
    let mut inv = Invaders::new();
    let before_x = xs(&inv);
    let moved = inv.update(1999);
    assert!(!moved);
    assert_eq!(xs(&inv), before_x);
    assert_eq!(inv.move_timer.time_left_ms, 1);
    let moved = inv.update(1);
    assert!(moved);
}

#[test]
fn marching_reaches_the_left_edge_then_flips_and_descends() {
    let mut inv = Invaders::new();
    // moving right from max x = 36: three steps to the right edge
    for _ in 0..3 {
        assert!(inv.update(2000));
        assert_eq!(inv.direction, 1);
    }
    assert_eq!(*xs(&inv).iter().max().unwrap(), NUM_COLS - 1);
    // the due step at the edge flips, descends, and shortens the interval
    assert!(inv.update(2000));
    assert_eq!(inv.direction, -1);
    assert_eq!(inv.move_timer.duration_ms, 1750);
    // now march left until the lead enemy reaches column zero
    for _ in 0..5 {
        assert!(inv.update(2000));
        assert_eq!(inv.direction, -1);
    }
    assert_eq!(*xs(&inv).iter().min().unwrap(), 0);
    let before_x = xs(&inv);
    let before_y = ys(&inv);
    // the next due update flips to +1 and moves every enemy down one row
    assert!(inv.update(2000));
    assert_eq!(inv.direction, 1);
    assert_eq!(xs(&inv), before_x);
    let after_y = ys(&inv);
    assert_eq!(after_y.len(), before_y.len());
    for (b, a) in before_y.iter().zip(after_y.iter()) {
        assert_eq!(*a, b + 1);
    }
    // and shortens the interval by 250 ms
    assert_eq!(inv.move_timer.duration_ms, 1500);
}

#[test]
fn marching_interval_never_drops_below_the_floor() {
    let mut inv = Invaders::new();
    let mut last = inv.move_timer.duration_ms;
    // eight flips bring the interval from 2000 to its floor; every enemy row
    // stays on the grid throughout
    for _ in 0..52 {
        inv.update(10_000);
        let d = inv.move_timer.duration_ms;
        assert!(d <= last);
        assert!(d >= 250);
        last = d;
        for e in inv.army.iter() {
            assert!(e.x < NUM_COLS && e.y < NUM_ROWS);
        }
        if inv.reached_bottom() {
            break;
        }
    }
    assert_eq!(inv.move_timer.duration_ms, 250);
}

#[test]
fn killing_the_same_cell_twice_scores_once() {
    let mut inv = Invaders::new();
    let count = inv.army.len();
    let first = inv.kill_invader_at(2, 2);
    assert!(first == NORMAL_POINTS || first == RARE_POINTS);
    assert_eq!(inv.army.len(), count - 1);
    let second = inv.kill_invader_at(2, 2);
    assert_eq!(second, 0);
    assert_eq!(inv.army.len(), count - 1);
    // the spawned total is untouched by kills
    assert_eq!(inv.total_count, count);
}

#[test]
fn killing_an_empty_cell_scores_nothing() {
    let mut inv = Invaders::new();
    let count = inv.army.len();
    assert_eq!(inv.kill_invader_at(3, 2), 0);
    assert_eq!(inv.kill_invader_at(0, 0), 0);
    assert_eq!(inv.army.len(), count);
}

#[test]
fn all_killed_and_reached_bottom_queries() {
    let mut inv = Invaders::new();
    assert!(!inv.all_killed());
    assert!(!inv.reached_bottom());
    let cells: Vec<(usize, usize)> = inv.army.iter().map(|e| (e.x, e.y)).collect();
    for (x, y) in cells {
        assert!(inv.kill_invader_at(x, y) > 0);
    }
    assert!(inv.all_killed());
}
