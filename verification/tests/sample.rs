use gran::sample::{
    compress, fit_to_length, merge_grain_into_buffer, normalize_sample_length, Sample,
    SampleBuilder, SampleInput, SampleInputAtTime, SampleInputIteratorBuilder,
};
use gran::sound::SAMPLES_PER_GRAIN;

fn hanning(sample: f32, place: usize, length: usize) -> f32 {
    let phase = 2.0 * std::f32::consts::PI * place as f32 / (length as f32 - 1.0);
    sample * 0.5 * (1.0 - phase.cos())
}

fn add(a: f32, b: f32) -> f32 {
    a + b
}

fn flat(sample: f32, _place: usize, _length: usize) -> f32 {
    sample
}

#[test]
fn normalize_keeps_a_clip_of_the_target_length() {
    let clip: Vec<f32> = (0..1000).map(|i| (i as f32 * 0.01).sin()).collect();
    let normalized = normalize_sample_length(clip.clone(), 1000, 0.0, &hanning, &add);
    assert_eq!(normalized, clip);
}

#[test]
fn normalize_pads_a_short_clip_with_silence() {
    let clip: Vec<f32> = vec![0.5, -0.25, 0.125];
    let normalized = normalize_sample_length(clip.clone(), 8, 0.0, &hanning, &add);
    assert_eq!(normalized, vec![0.5, -0.25, 0.125, 0.0, 0.0, 0.0, 0.0, 0.0]);
}

#[test]
fn normalize_brings_a_long_clip_to_the_target_length() {
    let clip: Vec<f32> = (0..5000).map(|i| if i < 2500 { 1.0 } else { 0.1 }).collect();
    for target in [0usize, 1, 511, 512, 513, 2500, 4000, 4999] {
        let normalized = normalize_sample_length(clip.clone(), target, 0.0, &hanning, &add);
        assert_eq!(normalized.len(), target);
    }
}

#[test]
fn normalize_keeps_the_gross_shape_of_a_long_clip() {
    // loud first half, quiet second half
    let clip: Vec<f32> = (0..8192).map(|i| if i < 4096 { 1.0 } else { 0.1 }).collect();
    let normalized = normalize_sample_length(clip, 4096, 0.0, &hanning, &add);
    assert_eq!(normalized.len(), 4096);
    let energy = |part: &[f32]| part.iter().map(|s| s * s).sum::<f32>();
    let early = energy(&normalized[..1024]);
    let late = energy(&normalized[2048..3072]);
    assert!(early > late);
}

#[test]
fn merge_lays_the_grain_over_the_end_of_the_buffer() {
    let buffer: Vec<f32> = vec![1.0, 2.0, 3.0, 4.0];
    let grain: Vec<f32> = vec![10.0, 20.0, 30.0];
    let merged = merge_grain_into_buffer(&buffer, &grain, 2, &add);
    assert_eq!(merged, vec![1.0, 2.0, 13.0, 24.0, 30.0]);
    let merged = merge_grain_into_buffer(&buffer, &grain, 0, &add);
    assert_eq!(merged, vec![1.0, 2.0, 3.0, 4.0, 10.0, 20.0, 30.0]);
}

#[test]
fn compress_length_follows_the_overlap() {
    let clip: Vec<f32> = vec![1.0; 1300];
    // three grains, the last one of 276 samples; every further grain adds 512 - 128 samples
    let compressed = compress(&clip, 128, 0.0, &flat, &add);
    assert_eq!(compressed.len(), 512 + 2 * (512 - 128) - (3 * 512 - 1300));
    // where two grains overlap, both count
    assert_eq!(compressed[0], 1.0);
    assert_eq!(compressed[383], 1.0);
    assert_eq!(compressed[384], 2.0);
    assert_eq!(compressed[511], 2.0);
    assert_eq!(compressed[512], 1.0);
}

#[test]
fn compress_windows_the_last_grain_over_its_own_length() {
    let clip: Vec<f32> = vec![1.0; 515];
    let place_and_length = |_sample: f32, place: usize, length: usize| (place * 1000 + length) as f32;
    let compressed = compress(&clip, 0, 0.0, &place_and_length, &add);
    assert_eq!(compressed.len(), 515);
    assert_eq!(compressed[0], 512.0);
    assert_eq!(compressed[511], 511_512.0);
    assert_eq!(compressed[512], 3.0);
    assert_eq!(compressed[514], 2003.0);
}

#[test]
fn fit_cuts_or_pads() {
    assert_eq!(fit_to_length(vec![1, 2, 3, 4], 2, 0), vec![1, 2]);
    assert_eq!(fit_to_length(vec![1, 2], 4, 0), vec![1, 2, 0, 0]);
    assert_eq!(fit_to_length(vec![1, 2], 2, 0), vec![1, 2]);
}

fn trigger_at(time: u64) -> SampleInputAtTime {
    SampleInputAtTime { input: SampleInput::Trigger, time }
}

#[test]
fn sample_is_silent_until_triggered() {
    let clip: Vec<f32> = vec![0.5; 90];
    // a beat of 2 ms at 48 kHz is 96 samples
    let mut player = Sample::new(clip, 48_000, 2_000, vec![trigger_at(20_000)], 0.0, &hanning, &add);
    assert_eq!(player.len(), 96);
    assert_eq!(player.secs_per_beat(), Some(2_000));
    let grain = player.next_grain();
    assert_eq!(grain.grain.len(), SAMPLES_PER_GRAIN);
    assert!(grain.grain.iter().all(|s| *s == 0.0));
    assert!(!player.is_playing());
    // the second grain starts at 10 666 us: still too early
    let grain = player.next_grain();
    assert!(grain.grain.iter().all(|s| *s == 0.0));
    // the third grain starts at 21 333 us: the trigger has come due
    let grain = player.next_grain();
    assert!(grain.grain[..90].iter().all(|s| *s == 0.5));
    assert!(grain.grain[90..].iter().all(|s| *s == 0.0));
    assert!(!player.is_playing());
    assert_eq!(grain.time_since_start_of_beat, 2_000);
}

#[test]
fn sample_plays_from_its_first_sample() {
    let clip: Vec<f32> = (0..2048).map(|i| i as f32).collect();
    // 2048 samples are 42 666 us at 48 kHz; a beat of 42 667 us is 2048 samples
    let mut player = SampleBuilder::new()
        .samples(clip)
        .with_sample_rate(48_000)
        .secs_per_beat(42_667)
        .inputs(vec![trigger_at(0), trigger_at(15_000)])
        .build(0.0, &hanning, &add);
    assert_eq!(player.len(), 2048);
    let grain = player.next_grain();
    assert_eq!(grain.grain[0], 0.0);
    assert_eq!(grain.grain[1], 1.0);
    assert_eq!(grain.grain[511], 511.0);
    assert_eq!(grain.time_since_start_of_beat, 42_667 * 512 / 2048);
    // 10 666 us: the second trigger is not yet due
    let grain = player.next_grain();
    assert_eq!(grain.grain[0], 512.0);
    // 21 333 us: the second trigger starts the clip over
    let grain = player.next_grain();
    assert_eq!(grain.grain[0], 0.0);
    assert_eq!(grain.grain[511], 511.0);
}

#[test]
fn sample_follows_the_sample_rate() {
    let clip: Vec<f32> = vec![0.25; 480];
    let mut player = Sample::new(clip, 48_000, 10_000, vec![], 0.0, &hanning, &add);
    assert_eq!(player.len(), 480);
    player.update_sample_rate(96_000, &hanning, &add);
    assert_eq!(player.len(), 960);
    player.update_sample_rate(24_000, &hanning, &add);
    assert_eq!(player.len(), 240);
}

#[test]
fn trigger_queue_repeats_after_its_delay() {
    let mut queue = SampleInputIteratorBuilder::new()
        .input(trigger_at(100))
        .input(trigger_at(300))
        .repeat_after(50)
        .build();
    assert_eq!(queue.next(99), None);
    assert_eq!(queue.next(100), Some(trigger_at(100)));
    assert_eq!(queue.next(100), None);
    assert_eq!(queue.next(300), Some(trigger_at(300)));
    // a round lasts 300 + 50 microseconds
    assert_eq!(queue.next(449), None);
    assert_eq!(queue.next(450), Some(trigger_at(450)));
    assert_eq!(queue.next(650), Some(trigger_at(650)));
    assert_eq!(queue.next(800), Some(trigger_at(800)));
}

#[test]
fn sample_follows_a_queue_that_starts_over() {
    let clip: Vec<f32> = vec![0.5; 96];
    let mut player = Sample::new(clip, 48_000, 2_000, vec![], 0.0, &hanning, &add);
    // without inputs the clip never plays
    let grain = player.next_grain();
    assert!(grain.grain.iter().all(|s| *s == 0.0));
    player.set_inputs(
        SampleInputIteratorBuilder::new().input(trigger_at(10_000)).repeat_after(10_000).build(),
    );
    // a grain lasts 10 666 us: from now on every second grain finds a trigger due
    let mut played = Vec::new();
    for _ in 0..6 {
        let grain = player.next_grain();
        played.push(grain.grain[0] == 0.5);
    }
    assert_eq!(played, vec![true, false, true, false, true, false]);
}

#[test]
fn sample_takes_its_triggers_in_the_order_of_their_times() {
    let clip: Vec<f32> = (0..96).map(|i| i as f32 + 1.0).collect();
    let mut player = Sample::new(clip, 48_000, 2_000, vec![trigger_at(30_000), trigger_at(0)], 0.0, &hanning, &add);
    let grain = player.next_grain();
    assert_eq!(grain.grain[0], 1.0);
    assert_eq!(grain.grain[95], 96.0);
    assert_eq!(grain.grain[96], 0.0);
}
