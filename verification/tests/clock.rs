use gran::clock::{Clock, DEFAULT_SAMPLE_RATE, MICROS_PER_SECOND};

#[test]
fn clock_counts_whole_microseconds() {
    let mut clock = Clock::new(48_000);
    assert_eq!(clock.now(), 0);
    assert_eq!(clock.sample_rate(), 48_000);
    clock.tick();
    // one sample at 48 kHz lasts 20.83 microseconds
    assert_eq!(clock.now(), 20);
    clock.tick();
    assert_eq!(clock.now(), 41);
    clock.tick();
    assert_eq!(clock.now(), 62);
}

#[test]
fn clock_does_not_drift() {
    let mut clock = Clock::new(44_100);
    for second in 1..=5u64 {
        for _ in 0..44_100 {
            clock.tick();
        }
        assert_eq!(clock.now(), second * MICROS_PER_SECOND);
    }
}

#[test]
fn advancing_at_once_is_ticking() {
    let mut ticked = Clock::new(44_100);
    let mut advanced = Clock::new(44_100);
    for n in 1..=2000usize {
        ticked.tick();
        if n % 7 == 0 {
            advanced.advance(7);
            assert_eq!(advanced.now(), ticked.now());
        }
    }
    let mut whole = Clock::new(44_100);
    whole.advance(1995);
    assert_eq!(whole.now(), advanced.now());
    assert_eq!(whole.now(), 1995 * 1_000_000 / 44_100);
}

#[test]
fn clock_stops_at_the_end_of_time() {
    let mut clock = Clock::new(1);
    clock.advance(usize::MAX);
    clock.advance(usize::MAX);
    clock.advance(usize::MAX);
    assert_eq!(clock.now(), u64::MAX);
    clock.tick();
    assert_eq!(clock.now(), u64::MAX);
}

#[test]
fn clock_keeps_its_time_under_a_new_rate() {
    let mut clock = Clock::new(DEFAULT_SAMPLE_RATE);
    clock.advance(480);
    assert_eq!(clock.now(), 10_000);
    clock.set_sample_rate(96_000);
    assert_eq!(clock.now(), 10_000);
    assert_eq!(clock.sample_rate(), 96_000);
    clock.advance(960);
    assert_eq!(clock.now(), 20_000);
}
