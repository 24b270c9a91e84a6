use invaders_core::supermeter::SuperMeter;
use invaders_core::supermeter::MAX_METER_AMOUNT;

#[test]
fn charging_sets_ready_exactly_at_the_maximum() {
    let mut m = SuperMeter::new();
    assert_eq!(m.meter, 0);
    assert!(!m.super_ready);
    for expected in 1..MAX_METER_AMOUNT {
        m.increment_meter();
        assert_eq!(m.meter, expected);
        assert!(!m.super_ready);
    }
    m.increment_meter();
    assert_eq!(m.meter, MAX_METER_AMOUNT);
    assert!(m.super_ready);

    // further increments neither overcharge nor clear readiness
    m.increment_meter();
    m.increment_meter();
    assert_eq!(m.meter, MAX_METER_AMOUNT);
    assert!(m.super_ready);
}

#[test]
fn reset_twice_equals_reset_once() {
    let mut m = SuperMeter::new();
    for _ in 0..7 {
        m.increment_meter();
    }
    m.update(60);

    let mut once = m;
    once.reset();
    let mut twice = m;
    twice.reset();
    twice.reset();
    assert_eq!(once, twice);
    assert_eq!(once.meter, 0);
    assert!(!once.super_ready);
    assert!(once.visible);
}

#[test]
fn flash_only_blinks_while_ready() {
    let mut m = SuperMeter::new();
    // not ready: the timer runs out but visibility never toggles
    m.update(150);
    m.update(150);
    assert!(m.visible);

    for _ in 0..MAX_METER_AMOUNT {
        m.increment_meter();
    }
    assert!(m.super_ready);
    // the flash timer is already expired, so the next tick toggles and rearms
    m.update(0);
    assert!(!m.visible);
    m.update(150);
    assert!(m.visible);
    m.update(75);
    assert!(m.visible);
    m.update(75);
    assert!(!m.visible);
}
