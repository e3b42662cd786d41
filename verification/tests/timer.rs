use automata::timer::GenerationTimer;

#[test]
fn interval_is_a_second_over_the_rate() {
    let timer = GenerationTimer::new(10);
    assert_eq!(timer.gens_per_sec, 10);
    assert_eq!(timer.target_nanos, 100_000_000);
    assert_eq!(timer.last_tick_nanos, 0);
}

#[test]
fn tick_fires_once_per_interval() {
    let mut timer = GenerationTimer::new(10);
    // just within the interval: no tick
    assert!(!timer.tick_at(100_000_000));
    // past the interval: tick, and the tick time is taken
    assert!(timer.tick_at(100_000_001));
    assert_eq!(timer.last_tick_nanos, 100_000_001);
    // the same reading again: no tick
    assert!(!timer.tick_at(100_000_001));
    // a clock that ran backwards: no tick, nothing changes
    assert!(!timer.tick_at(50));
    assert_eq!(timer.last_tick_nanos, 100_000_001);
}

#[test]
fn live_tick_eventually_fires() {
    // the wall clock is far past the epoch, so a fresh timer is due
    let mut timer = GenerationTimer::new(1000);
    assert!(timer.tick());
}

#[test]
fn raising_the_rate_shortens_the_interval() {
    let mut timer = GenerationTimer::new(10);
    timer.inc_rate();
    assert_eq!(timer.gens_per_sec, 11);
    assert_eq!(timer.target_nanos, 1_000_000_000 / 11);
}

#[test]
fn lowering_the_rate_lengthens_the_interval() {
    let mut timer = GenerationTimer::new(10);
    timer.dec_rate();
    assert_eq!(timer.gens_per_sec, 9);
    assert_eq!(timer.target_nanos, 1_000_000_000 / 9);
}

#[test]
fn rate_never_drops_below_one() {
    let mut timer = GenerationTimer::new(1);
    timer.dec_rate();
    assert_eq!(timer.gens_per_sec, 1);
    assert_eq!(timer.target_nanos, 1_000_000_000);
}
