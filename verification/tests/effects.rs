use gran::effects::{Beat, Filter, FilterType, OscillatorChange, Pattern, TapeDelay};
use gran::sound::{apply_gain, EffectInput, UNITY};

fn scale(sample: f32, level: u32) -> f32 {
    sample * (level as f32 / UNITY as f32)
}

fn grain_of(value: f32) -> Vec<f32> {
    vec![value; 512]
}

fn input(value: f32, time: u64) -> EffectInput<f32> {
    EffectInput { grain: grain_of(value), time_since_start_of_beat: time }
}

#[test]
fn pattern_plays_and_skips() {
    let mut pattern = Pattern::new(vec![Beat::Play, Beat::Skip]);
    // beat 0
    let out = pattern.apply(input(0.3, 0), 0.0, scale);
    assert_eq!(pattern.beat_index(), 0);
    assert_eq!(out.grain, grain_of(0.3));
    assert!(out.oscillator_changes.is_empty());
    let out = pattern.apply(input(0.3, 500), 0.0, scale);
    assert_eq!(out.grain, grain_of(0.3));
    // the time since the start of the beat falls back: beat 1
    let out = pattern.apply(input(0.3, 10), 0.0, scale);
    assert_eq!(pattern.beat_index(), 1);
    assert_eq!(out.grain, grain_of(0.0));
    // and from the last beat back to the first
    let out = pattern.apply(input(0.3, 0), 0.0, scale);
    assert_eq!(pattern.beat_index(), 0);
    assert_eq!(out.grain, grain_of(0.3));
}

#[test]
fn pattern_plays_with_volume() {
    let mut pattern = Pattern::new(vec![Beat::PlayWithVolume(500_000)]);
    let out = pattern.apply(input(0.5, 0), 0.0, scale);
    assert_eq!(out.grain, grain_of(0.25));
}

#[test]
fn humanize_by_nothing_changes_nothing() {
    let beats = vec![Beat::Play, Beat::Skip, Beat::PlayWithVolume(700_000)];
    let mut pattern = Pattern::new(beats.clone());
    pattern.humanize(0);
    for (i, beat) in beats.iter().enumerate() {
        assert_eq!(pattern.beat_at(i), *beat);
    }
    let out = pattern.apply(input(0.3, 0), 0.0, scale);
    assert_eq!(out.grain, grain_of(0.3));
}

#[test]
fn humanize_stays_within_its_range() {
    for _ in 0..200 {
        let mut pattern = Pattern::new(vec![Beat::Play, Beat::Skip, Beat::PlayWithVolume(400_000)]);
        pattern.humanize(100_000);
        let first = pattern.beat_at(0).level();
        assert!(900_000 <= first && first <= 1_100_000);
        assert_eq!(pattern.beat_at(1), Beat::Skip);
        let third = pattern.beat_at(2).level();
        assert!(360_000 <= third && third <= 440_000);
    }
}

#[test]
fn humanize_moves_levels() {
    // with a thousand draws from two million and one values, not all are zero
    let moved = (0..1000).any(|_| {
        let mut pattern = Pattern::new(vec![Beat::Play]);
        pattern.humanize(UNITY);
        pattern.beat_at(0) != Beat::Play
    });
    assert!(moved);
}

#[test]
fn perturb_holds_levels_in_range() {
    assert_eq!(Beat::Play.perturb(0), Beat::Play);
    assert_eq!(Beat::Play.perturb(-1), Beat::PlayWithVolume(999_999));
    assert_eq!(Beat::Skip.perturb(5), Beat::Skip);
    assert_eq!(Beat::PlayWithVolume(10).perturb(-11), Beat::PlayWithVolume(0));
    assert_eq!(Beat::PlayWithVolume(u32::MAX).perturb(1), Beat::PlayWithVolume(u32::MAX));
    assert_eq!(Beat::PlayWithVolume(10).perturb(0), Beat::PlayWithVolume(10));
}

#[test]
fn gain_at_the_ends_touches_no_arithmetic() {
    let poisoned = |_sample: f32, _level: u32| f32::NAN;
    assert_eq!(apply_gain(grain_of(0.7), UNITY, 0.0, poisoned), grain_of(0.7));
    assert_eq!(apply_gain(grain_of(0.7), 0, 0.0, poisoned), grain_of(0.0));
    assert_eq!(apply_gain(grain_of(0.5), 250_000, 0.0, scale), grain_of(0.125));
}

#[test]
fn filter_feeds_back_at_four_poles_only() {
    for poles in 0..8 {
        assert_eq!(Filter::new_low_pass(poles).has_feedback(), poles == 4);
    }
}

#[test]
fn filter_readouts() {
    let weights = |filter: Filter| (0..=5).map(|stage| filter.stage_weight(stage)).collect::<Vec<i8>>();
    assert_eq!(weights(Filter::new_low_pass(4)), vec![0, 0, 0, 0, 1, 0]);
    assert_eq!(weights(Filter::new_high_pass(4)), vec![1, -1, 1, -1, 1, 0]);
    assert_eq!(weights(Filter::new_band_pass(4)), vec![0, 0, 1, 0, -1, 0]);
    assert_eq!(weights(Filter::new_band_pass(1)), vec![1, -1, 0, 0, 0, 0]);
    assert_eq!(weights(Filter::new_notch(4)), vec![1, 0, 0, 0, 0, 0]);
    assert_eq!(Filter::new_notch(4).divisor(), 2);
    assert_eq!(Filter::new(FilterType::HighPass, 2).divisor(), 1);
}

#[test]
fn tape_layout() {
    // 50 ms at 48 kHz: 2400 samples; the head wanders by 6 thousandths of that: 300 us, 14 samples
    let tape: TapeDelay<f32> = TapeDelay::light(50_000, 48_000).unwrap();
    assert_eq!(tape.len(), 0);
    assert_eq!(tape.read_sample_from_buffer(0), None);
    let tape: Option<TapeDelay<f32>> = TapeDelay::new(u64::MAX, 0, 0, usize::MAX);
    assert!(tape.is_none());
}

#[test]
fn tape_is_silent_until_filled_and_then_delays() {
    // 1 ms at 8 kHz: 8 samples, half of that to wander in: 4 samples
    let mut tape: TapeDelay<i32> = TapeDelay::new(1_000, 250_000, 250_000, 8_000).unwrap();
    for sample in 0..7 {
        assert_eq!(tape.read_sample_from_buffer(0), None);
        tape.push_sample_to_buffer(sample);
    }
    tape.push_sample_to_buffer(7);
    assert_eq!(tape.len(), 8);
    // oldest first: the head stands four samples in
    assert_eq!(tape.read_sample_from_buffer(0), Some(4));
    assert_eq!(tape.read_sample_from_buffer(-4), Some(0));
    assert_eq!(tape.read_sample_from_buffer(-9), Some(0));
    assert_eq!(tape.read_sample_from_buffer(3), Some(7));
    assert_eq!(tape.read_sample_from_buffer(4), None);
    tape.push_sample_to_buffer(8);
    assert_eq!(tape.len(), 8);
    assert_eq!(tape.read_sample_from_buffer(0), Some(5));
    let copy = tape.clone();
    assert_eq!(copy.read_sample_from_buffer(-4), Some(1));
}

#[test]
fn oscillator_change_carries_a_frequency() {
    assert_eq!(OscillatorChange::Frequency(440_000), OscillatorChange::Frequency(440_000));
    assert_ne!(OscillatorChange::Frequency(440_000), OscillatorChange::Frequency(220_000));
}

#[test]
fn tape_holds_what_was_written_last() {
    // 1 ms at 8 kHz: 8 samples
    let mut tape: TapeDelay<u32> = TapeDelay::new(1_000, 0, 0, 8_000).unwrap();
    for sample in 0..100 {
        tape.push_sample_to_buffer(sample);
        assert!(tape.len() <= 8);
        if sample >= 7 {
            assert!(tape.is_filled());
            // without room to wander the head reads what was written eight samples ago
            assert_eq!(tape.read_sample_from_buffer(0), Some(sample - 7));
            assert_eq!(tape.read_sample_from_buffer(7), Some(sample));
        } else {
            assert!(!tape.is_filled());
        }
    }
}

#[test]
fn tape_without_delay_holds_one_sample() {
    let mut tape: TapeDelay<u32> = TapeDelay::new(0, 0, 0, 48_000).unwrap();
    assert!(tape.is_filled());
    assert_eq!(tape.read_sample_from_buffer(0), None);
    tape.push_sample_to_buffer(1);
    tape.push_sample_to_buffer(2);
    assert_eq!(tape.len(), 1);
    assert_eq!(tape.read_sample_from_buffer(0), Some(2));
}

#[test]
fn humanize_draws_vary() {
    let levels: Vec<u32> = (0..200)
        .map(|_| {
            let mut pattern = Pattern::new(vec![Beat::PlayWithVolume(500_000)]);
            pattern.humanize(500_000);
            pattern.beat_at(0).level()
        })
        .collect();
    assert!(levels.iter().any(|level| *level != levels[0]));
    assert!(levels.iter().all(|level| 250_000 <= *level && *level <= 750_000));
}

#[test]
fn a_copy_of_a_pattern_keeps_its_beat() {
    let mut pattern = Pattern::new(vec![Beat::Play, Beat::Skip, Beat::Play]);
    pattern.apply(input(0.1, 5), 0.0, scale);
    pattern.apply(input(0.1, 1), 0.0, scale);
    let mut copy = pattern.clone();
    assert_eq!(copy.beat_index(), 1);
    copy.apply(input(0.1, 0), 0.0, scale);
    assert_eq!(copy.beat_index(), 2);
    assert_eq!(pattern.beat_index(), 1);
}
