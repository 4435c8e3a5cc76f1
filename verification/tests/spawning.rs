use combat_core::spawning::SpawnTimer;

const SECOND: u64 = 1_000_000_000;
const MILLISECOND: u64 = 1_000_000;

#[test]
fn a_new_spawn_timer_has_not_started() {
    let timer = SpawnTimer::new(2 * SECOND, 5);
    assert_eq!(timer.duration, 2 * SECOND);
    assert_eq!(timer.elapsed, 0);
    assert_eq!(timer.times_finished, 0);
    assert_eq!(timer.interval_decrease, 5);
    assert!(!timer.just_finished());
}

#[test]
fn the_spawn_timer_comes_round_again_and_again() {
    let mut timer = SpawnTimer::new(SECOND, 0);
    timer.update(400 * MILLISECOND);
    assert_eq!((timer.elapsed, timer.times_finished), (400 * MILLISECOND, 0));
    assert!(!timer.just_finished());
    timer.update(700 * MILLISECOND);
    assert_eq!((timer.elapsed, timer.times_finished), (100 * MILLISECOND, 1));
    assert!(timer.just_finished());
    timer.update(100 * MILLISECOND);
    assert_eq!((timer.elapsed, timer.times_finished), (200 * MILLISECOND, 0));
    timer.update(2_800 * MILLISECOND);
    assert_eq!((timer.elapsed, timer.times_finished), (0, 3));
    assert_eq!(timer.duration, SECOND);
}

#[test]
fn the_interval_shrinks_while_time_passes() {
    // Two milliseconds less in every second.
    let mut timer = SpawnTimer::new(SECOND, 2 * MILLISECOND);
    timer.update(500 * MILLISECOND);
    assert_eq!(timer.duration, 999 * MILLISECOND);
    assert_eq!((timer.elapsed, timer.times_finished), (500 * MILLISECOND, 0));
    timer.update(500 * MILLISECOND);
    assert_eq!(timer.duration, 998 * MILLISECOND);
    assert_eq!((timer.elapsed, timer.times_finished), (2 * MILLISECOND, 1));
}

#[test]
fn the_interval_never_falls_below_a_millisecond() {
    let mut timer = SpawnTimer::new(10 * MILLISECOND, SECOND);
    timer.update(9 * MILLISECOND + 500_000);
    // The interval would be half a millisecond; it is held at one.
    assert_eq!(timer.duration, MILLISECOND);
    assert_eq!((timer.elapsed, timer.times_finished), (500_000, 9));
    let mut zero = SpawnTimer::new(0, u64::MAX);
    zero.update(u64::MAX);
    assert_eq!(zero.duration, MILLISECOND);
    assert_eq!(zero.elapsed, u64::MAX % MILLISECOND);
    assert_eq!(zero.times_finished as u64, (u64::MAX / MILLISECOND) % (1u64 << 32));
}
