use invaders_core::frame::Frame;
use invaders_core::invaders::Invaders;
use invaders_core::player::Player;
use invaders_core::supermeter::SuperMeter;
use invaders_core::supermeter::MAX_METER_AMOUNT;
use invaders_core::NUM_COLS;
use invaders_core::NUM_ROWS;

#[test]
fn a_new_frame_is_blank_and_cells_can_be_written() {
    let mut f = Frame::new();
    assert_eq!(f.get_cell(0, 0), ' ');
    assert_eq!(f.get_cell(NUM_COLS - 1, NUM_ROWS - 1), ' ');
    f.set_cell(3, 7, '#');
    assert_eq!(f.get_cell(3, 7), '#');
    assert_eq!(f.get_cell(7, 3), ' ');
}

#[test]
fn the_formation_paints_the_early_march_glyphs_when_fresh() {
    let inv = Invaders::new();
    let mut f = Frame::new();
    inv.draw(&mut f);
    // a fresh marching timer sits above half, so the early frame shows
    for e in inv.army.iter() {
        let expected = if e.is_rare { 'o' } else { 'x' };
        assert_eq!(f.get_cell(e.x, e.y), expected);
    }
    assert_eq!(f.get_cell(0, 0), ' ');
}

#[test]
fn the_formation_paints_the_late_march_glyphs_past_half_time() {
    let mut inv = Invaders::new();
    let moved = inv.update(1500);
    assert!(!moved);
    let mut f = Frame::new();
    inv.draw(&mut f);
    for e in inv.army.iter() {
        let expected = if e.is_rare { '0' } else { '+' };
        assert_eq!(f.get_cell(e.x, e.y), expected);
    }
}

#[test]
fn the_player_and_its_shots_paint_their_glyphs() {
    let mut p = Player::new();
    assert!(p.shoot());
    let mut f = Frame::new();
    p.draw(&mut f);
    assert_eq!(f.get_cell(p.x, p.y), 'A');
    assert_eq!(f.get_cell(p.x, p.y - 1), '|');
}

#[test]
fn an_exploding_shot_paints_the_impact_glyph() {
    let mut p = Player::new();
    assert!(p.shoot());
    let mut shot = p.shots[0];
    shot.explode();
    let mut f = Frame::new();
    shot.draw(&mut f);
    assert_eq!(f.get_cell(shot.x, shot.y), '*');
}

#[test]
fn the_meter_bar_shows_its_charge_and_prompt() {
    let mut m = SuperMeter::new();
    for _ in 0..3 {
        m.increment_meter();
    }
    let mut f = Frame::new();
    m.draw(&mut f);
    let head: String = (0..8).map(|i| f.get_cell(i, 1)).collect();
    assert_eq!(head, "SUPER: [");
    let bar: String = (8..18).map(|i| f.get_cell(i, 1)).collect();
    assert_eq!(bar, "===       ");
    assert_eq!(f.get_cell(18, 1), ']');
    // not ready: no prompt
    assert_eq!(f.get_cell(20, 1), ' ');

    for _ in 0..MAX_METER_AMOUNT {
        m.increment_meter();
    }
    let mut f2 = Frame::new();
    m.draw(&mut f2);
    let bar: String = (8..18).map(|i| f2.get_cell(i, 1)).collect();
    assert_eq!(bar, "==========");
    let prompt: String = (20..28).map(|i| f2.get_cell(i, 1)).collect();
    assert_eq!(prompt, "Press F!");
}

#[test]
fn a_hidden_flash_blanks_the_filled_bar_only() {
    let mut m = SuperMeter::new();
    for _ in 0..MAX_METER_AMOUNT {
        m.increment_meter();
    }
    // the flash timer expires and toggles visibility off
    m.update(150);
    assert!(!m.visible);
    let mut f = Frame::new();
    m.draw(&mut f);
    let bar: String = (8..18).map(|i| f.get_cell(i, 1)).collect();
    assert_eq!(bar, "          ");
    // the brackets and prompt stay
    assert_eq!(f.get_cell(7, 1), '[');
    assert_eq!(f.get_cell(18, 1), ']');
    assert_eq!(f.get_cell(20, 1), 'P');
}
