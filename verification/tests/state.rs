use gran::state::{Composition, History, Pattern, PatternBuilder, PatternConfig};

fn amplify(sample: f32, volume: u32) -> f32 {
    (sample * (volume as f32 / 1_000_000.0) * 100.0).clamp(-1.0, 1.0)
}

fn keep(sample: f32, _volume: u32) -> f32 {
    sample
}

#[test]
fn history_holds_two_grains() {
    let mut history: History<i32> = History::new(3, 0);
    assert_eq!(history.last_grain(), vec![0, 0, 0]);
    for sample in 1..=4 {
        history.push(sample);
    }
    // six samples, oldest first: 0 0 1 2 3 4
    assert_eq!(history.last_grain(), vec![0, 0, 1]);
    for sample in 5..=7 {
        history.push(sample);
    }
    assert_eq!(history.last_grain(), vec![2, 3, 4]);
}

#[test]
fn pattern_plays_the_clip_on_its_trigger_beats() {
    // 6000 beats a minute at 48 kHz: 480 samples a beat; four beats, the first and the third play
    let config = PatternConfig::new(6000, 10_000, 4);
    let clip: Vec<f32> = (0..480).map(|i| (i + 1) as f32).collect();
    let mut pattern = Pattern::new_with_sample_rate(config, clip, vec![1, 3, 9, 0], 48_000, 0.0, &keep);
    assert!(pattern.is_playable());
    for bar in 0..2 {
        for position in 0..1920usize {
            let sample = pattern.get_sample_at_position(bar * 1920 + position);
            let beat = position / 480;
            if beat == 0 || beat == 2 {
                assert_eq!(sample, (position % 480 + 1) as f32);
            } else {
                assert_eq!(sample, 0.0);
            }
        }
    }
}

#[test]
fn pattern_stretches_the_clip_over_the_beat() {
    // a clip of 960 samples in a beat of 480: every second sample plays
    let config = PatternConfig::new(6000, 10_000, 1);
    let clip: Vec<f32> = (0..960).map(|i| i as f32).collect();
    let mut pattern = Pattern::new_with_sample_rate(config, clip, vec![1], 48_000, 0.0, &keep);
    assert_eq!(pattern.next_sample(), 0.0);
    assert_eq!(pattern.next_sample(), 2.0);
    assert_eq!(pattern.next_sample(), 4.0);
    assert_eq!(pattern.get_sample_at_position(479), 958.0);
    assert_eq!(pattern.get_sample_at_position(480), 0.0);
}

#[test]
fn pattern_fills_a_short_clip_up_and_amplifies_it() {
    // volume 0.005 times a hundred: half scale
    let config = PatternConfig::new(6000, 5_000, 1);
    let mut pattern = Pattern::new_with_sample_rate(config, vec![1.0, -1.0, 4.0], vec![1], 48_000, 0.0, &amplify);
    assert_eq!(pattern.next_sample(), 0.5);
    assert_eq!(pattern.next_sample(), -0.5);
    assert_eq!(pattern.next_sample(), 1.0);
    assert_eq!(pattern.next_sample(), 0.0);
    // the history has taken the dry samples in: 144 samples a grain, 288 in all
    let history = pattern.history().last_grain();
    assert_eq!(history.len(), 144);
    assert!(history.iter().all(|sample| *sample == 0.0));
}

#[test]
fn pattern_follows_the_sample_rate() {
    let config = PatternConfig::new(120, 10_000, 2);
    let mut pattern = Pattern::new(config, vec![1.0f32; 10], vec![2], 0.0, &keep);
    // half a second a beat: 24 000 samples at the default rate
    assert_eq!(pattern.get_sample_at_position(23_999), 0.0);
    assert_eq!(pattern.get_sample_at_position(24_000), 1.0);
    pattern.update_sample_rate(96_000);
    assert_eq!(pattern.get_sample_at_position(24_000), 0.0);
    assert_eq!(pattern.get_sample_at_position(48_000), 1.0);
}

#[test]
fn pattern_without_beats_cannot_play() {
    let config = PatternConfig::new(120, 10_000, 0);
    let pattern = Pattern::new(config, vec![1.0f32; 10], vec![1], 0.0, &keep);
    assert!(!pattern.is_playable());
}

#[test]
fn builder_asks_for_settings_and_clip() {
    let mut builder: PatternBuilder<f32> = PatternBuilder::new();
    assert_eq!(builder.build(0.0, &keep).err(), Some("Missing required fields".to_string()));
    builder.config(PatternConfig::new(120, 10_000, 4));
    assert_eq!(builder.build(0.0, &keep).err(), Some("Missing required fields".to_string()));
    builder.sample(vec![0.5; 4]).trigger_beats(vec![1]);
    let mut pattern = builder.build(0.0, &keep).ok().unwrap();
    assert_eq!(pattern.next_sample(), 0.5);
}

#[test]
fn composition_keeps_one_pattern_per_name() {
    let config = PatternConfig::new(6000, 10_000, 1);
    let pattern = |value: f32| Pattern::new_with_sample_rate(config, vec![value; 480], vec![1], 48_000, 0.0, &keep);
    let mut composition: Composition<f32> = Composition::new();
    assert_eq!(composition.len(), 0);
    assert!(composition.pattern(&"kick".to_string()).is_none());
    composition.add_pattern("kick".to_string(), pattern(0.25));
    composition.add_pattern("snare".to_string(), pattern(0.5));
    assert_eq!(composition.len(), 2);
    // a second pattern under a name takes the place of the first
    composition.add_pattern("kick".to_string(), pattern(0.75));
    assert_eq!(composition.len(), 2);
    let mut kick = composition.pattern(&"kick".to_string()).unwrap().clone();
    assert_eq!(kick.next_sample(), 0.75);
    let mut snare = composition.pattern(&"snare".to_string()).unwrap().clone();
    assert_eq!(snare.next_sample(), 0.5);
    assert!(composition.pattern(&"hat".to_string()).is_none());
}

#[test]
fn pattern_plays_bar_after_bar() {
    let config = PatternConfig::new(6000, 10_000, 3);
    let clip: Vec<f32> = (0..480).map(|i| i as f32).collect();
    let mut pattern = Pattern::new_with_sample_rate(config, clip, vec![2], 48_000, 0.0, &keep);
    for position in 0..1440usize {
        let first = pattern.get_sample_at_position(position);
        let second = pattern.get_sample_at_position(position + 1440);
        assert_eq!(first, second);
    }
}
