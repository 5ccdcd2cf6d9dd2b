use gran::oscillator::noise::{white_noise, PinkNoise, NOISE_PEAK};

#[test]
fn white_noise_stays_within_peak() {
    for _ in 0..1000 {
        let draw = white_noise();
        assert!(-NOISE_PEAK <= draw && draw <= NOISE_PEAK);
    }
}

#[test]
fn pink_noise_refreshes_generators_on_schedule() {
    let mut source = PinkNoise::new(3);
    // call 0: every generator is due
    assert_eq!(source.refresh_with(&vec![1, 10, 100]), 111);
    // call 1: only generator 0
    assert_eq!(source.refresh_with(&vec![2, 20, 200]), 112);
    // call 2: generators 0 and 1
    assert_eq!(source.refresh_with(&vec![3, 30, 300]), 133);
    // call 3: only generator 0
    assert_eq!(source.refresh_with(&vec![4, 40, 400]), 134);
    // call 4: all three
    assert_eq!(source.refresh_with(&vec![5, 50, 500]), 555);
}

#[test]
fn white_noise_varies() {
    let first = white_noise();
    assert!((0..1000).any(|_| white_noise() != first));
}

#[test]
fn pink_noise_starts_over_after_a_full_period() {
    let mut source = PinkNoise::new(2);
    assert_eq!(source.num_generators(), 2);
    for _ in 0..4 {
        source.refresh_with(&vec![0, 0]);
    }
    // call 4 is call 0 of the next period: both generators are due
    assert_eq!(source.refresh_with(&vec![7, 70]), 77);
    assert_eq!(source.refresh_with(&vec![8, 80]), 78);
}

#[test]
fn pink_noise_draws_stay_within_peak() {
    let mut source = PinkNoise::new(10);
    for _ in 0..5000 {
        let noise = source.next_value();
        assert!(-10 * NOISE_PEAK <= noise && noise <= 10 * NOISE_PEAK);
    }
}

#[test]
fn pink_noise_without_generators_is_silent() {
    let mut source = PinkNoise::new(0);
    for _ in 0..10 {
        assert_eq!(source.next_value(), 0);
    }
}

#[test]
fn pink_noise_is_slower_than_white() {
    // the last generator of ten changes on every 512th call only
    let mut source = PinkNoise::new(10);
    let mut previous = source.next_value();
    let mut white_changes = 0i64;
    let mut pink_changes = 0i64;
    let mut last_white = white_noise();
    for _ in 0..4096 {
        let noise = source.next_value();
        pink_changes += (noise - previous).abs();
        previous = noise;
        let white = white_noise();
        white_changes += (white - last_white).abs();
        last_white = white;
    }
    // ten generators at full scale against one, and still the sum moves less per call
    // than ten white generators would: on average only two of them change
    assert!(pink_changes < 10 * white_changes);
}

#[test]
fn the_same_draws_give_the_same_noise() {
    let mut first = PinkNoise::new(4);
    let mut second = first.clone();
    for call in 0..40i64 {
        let draws: Vec<i64> = (0..4).map(|generator| (call * 37 + generator * 11) % 1000 - 500).collect();
        assert_eq!(first.refresh_with(&draws), second.refresh_with(&draws));
    }
}
