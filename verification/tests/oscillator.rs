use gran::effects::OscillatorChange;
use gran::oscillator::{
    Oscillator, OscillatorBuilder, OscillatorInput, OscillatorInputAtTime,
    OscillatorInputIteratorBuilder, OscillatorState, SampleCue, ADSR,
};
use gran::sound::{SAMPLES_PER_GRAIN, UNITY};

fn press_then_release(release_at: u64) -> Oscillator {
    let inputs = OscillatorInputIteratorBuilder::new()
        .input(OscillatorInputAtTime { input: OscillatorInput::Press(220_000), time: 0 })
        .input(OscillatorInputAtTime { input: OscillatorInput::Release, time: release_at })
        .build();
    OscillatorBuilder::new()
        .inputs(inputs)
        .adsr(ADSR::new(10_000, 10_000, 800_000, 20_000))
        .sample_rate(48_000)
        .build()
}

#[test]
fn oscillator_starts_idle() {
    let oscillator = press_then_release(100_000);
    assert_eq!(oscillator.state(), OscillatorState::Idle);
    assert_eq!(oscillator.frequency(), None);
    assert_eq!(oscillator.secs_per_beat(), None);
}

#[test]
fn press_sets_frequency_and_starts_note() {
    let mut oscillator = press_then_release(100_000);
    let cue = oscillator.next_sample();
    assert_eq!(cue, SampleCue { audible: true, frequency: Some(220_000) });
    assert_eq!(oscillator.state(), OscillatorState::Play { started_at: 0 });
    assert_eq!(oscillator.frequency(), Some(220_000));
    let cue = oscillator.next_sample();
    assert_eq!(cue, SampleCue { audible: true, frequency: None });
}

#[test]
fn press_release_then_idle_and_silent() {
    let mut oscillator = press_then_release(30_000);
    let mut grains = 0;
    // 30 ms to the release and 20 ms of release are 2400 samples: five grains.
    loop {
        let grain = oscillator.next_grain();
        assert_eq!(grain.samples.len(), SAMPLES_PER_GRAIN);
        grains += 1;
        assert!(grains < 100);
        if oscillator.state() == OscillatorState::Idle {
            assert_eq!(grain.gain, 0);
            break;
        }
        assert!(grain.samples.iter().all(|cue| cue.audible));
    }
    assert_eq!(grains, 5);
    for _ in 0..10 {
        let grain = oscillator.next_grain();
        assert_eq!(oscillator.state(), OscillatorState::Idle);
        assert!(grain.samples.iter().all(|cue| *cue == SampleCue { audible: false, frequency: None }));
    }
}

#[test]
fn release_fires_on_the_sample_it_comes_due() {
    let mut oscillator = press_then_release(1_000);
    // one millisecond at 48 kHz is 48 samples
    for _ in 0..48 {
        oscillator.next_sample();
        assert_eq!(oscillator.state(), OscillatorState::Play { started_at: 0 });
    }
    oscillator.next_sample();
    assert_eq!(oscillator.state(), OscillatorState::Release { started_at: 1_000 });
}

#[test]
fn envelope_levels() {
    // attack 10 ms, decay 10 ms, sustain 0.8, release 20 ms; a grain lasts 10 666 us
    let mut oscillator = press_then_release(50_000);
    // end of grain 1: 512 samples = 10 666 us: in the decay, 666 us in
    let grain = oscillator.next_grain();
    assert_eq!(grain.gain, UNITY - 200_000 * 666 / 10_000);
    // end of grain 2: 21 333 us: sustain
    let grain = oscillator.next_grain();
    assert_eq!(grain.gain, 800_000);
    let _ = oscillator.next_grain();
    let _ = oscillator.next_grain();
    // end of grain 5: 53 333 us, the release began at 50 000 us (sample 2400, at 50 000 us)
    let grain = oscillator.next_grain();
    assert_eq!(oscillator.state(), OscillatorState::Release { started_at: 50_000 });
    assert_eq!(grain.gain as u64, 800_000u64 * (20_000 - 3_333) / 20_000);
}

#[test]
fn attack_ramps_up() {
    let inputs = OscillatorInputIteratorBuilder::new()
        .input(OscillatorInputAtTime { input: OscillatorInput::PressSame, time: 0 })
        .build();
    let mut oscillator = OscillatorBuilder::new()
        .inputs(inputs)
        .adsr(ADSR::new(1_000_000, 0, UNITY, 0))
        .sample_rate(48_000)
        .build();
    let mut last = 0;
    for n in 1..=10u64 {
        let grain = oscillator.next_grain();
        let elapsed = n * 512 * 1_000_000 / 48_000;
        assert_eq!(grain.gain as u64, 1_000_000 * elapsed / 1_000_000);
        assert!(grain.gain > last);
        last = grain.gain;
    }
}

#[test]
fn auto_play_presses_at_time_zero() {
    let mut oscillator = OscillatorBuilder::new().auto_play().build();
    let cue = oscillator.next_sample();
    assert_eq!(cue, SampleCue { audible: true, frequency: None });
    assert_eq!(oscillator.state(), OscillatorState::Play { started_at: 0 });
}

/// A plain sawtooth between -1 and 1, driven by the cues of an oscillator.
struct Sawtooth {
    phase: f64,
    frequency: f64,
}

impl Sawtooth {
    fn next_value(&mut self, cue: SampleCue, sample_rate: f64) -> f64 {
        if let Some(frequency) = cue.frequency {
            self.frequency = frequency as f64 / 1000.0;
        }
        if !cue.audible {
            return 0.0;
        }
        self.phase = (self.phase + self.frequency / sample_rate).fract();
        2.0 * self.phase - 1.0
    }
}

#[test]
fn sawtooth_at_220_hertz_crosses_zero_220_times_a_second() {
    let mut oscillator = OscillatorBuilder::new()
        .auto_play()
        .adsr(ADSR::new(0, 0, UNITY, 0))
        .sample_rate(48_000)
        .build();
    let mut waveform = Sawtooth { phase: 0.0, frequency: 220.0 };
    let mut signal = Vec::new();
    while signal.len() < 48_000 {
        let grain = oscillator.next_grain();
        assert_eq!(grain.gain, UNITY);
        for cue in grain.samples {
            signal.push(waveform.next_value(cue, 48_000.0) * (grain.gain as f64 / UNITY as f64));
        }
    }
    signal.truncate(48_000);
    let rising = signal.windows(2).filter(|pair| pair[0] < 0.0 && pair[1] >= 0.0).count();
    assert!((219..=221).contains(&rising), "{}", rising);
}

#[test]
fn changes_of_a_grain_are_taken_in_order() {
    let mut oscillator = press_then_release(100_000);
    oscillator.next_sample();
    assert_eq!(oscillator.frequency(), Some(220_000));
    oscillator.apply_changes(&vec![]);
    assert_eq!(oscillator.frequency(), Some(220_000));
    oscillator.apply_changes(&vec![
        OscillatorChange::Frequency(110_000),
        OscillatorChange::Frequency(330_000),
    ]);
    assert_eq!(oscillator.frequency(), Some(330_000));
    oscillator.apply_change(OscillatorChange::Frequency(55_000));
    assert_eq!(oscillator.frequency(), Some(55_000));
}

#[test]
fn a_new_sample_rate_keeps_the_time() {
    let mut oscillator = press_then_release(100_000);
    for _ in 0..480 {
        oscillator.next_sample();
    }
    assert_eq!(oscillator.micros_since_start(), 10_000);
    oscillator.update_sample_rate(96_000);
    for _ in 0..960 {
        oscillator.next_sample();
    }
    assert_eq!(oscillator.micros_since_start(), 20_000);
}

#[test]
fn release_without_release_time_is_over_at_once() {
    let inputs = OscillatorInputIteratorBuilder::new()
        .input(OscillatorInputAtTime { input: OscillatorInput::PressSame, time: 0 })
        .input(OscillatorInputAtTime { input: OscillatorInput::Release, time: 0 })
        .build();
    let mut oscillator = OscillatorBuilder::new().inputs(inputs).adsr(ADSR::new(0, 0, UNITY, 0)).build();
    let grain = oscillator.next_grain();
    assert_eq!(grain.gain, 0);
    assert_eq!(oscillator.state(), OscillatorState::Idle);
}

#[test]
fn a_copy_goes_its_own_way() {
    let mut oscillator = press_then_release(100_000);
    let mut copy = oscillator.clone();
    oscillator.next_grain();
    assert_eq!(copy.state(), OscillatorState::Idle);
    assert_eq!(copy.micros_since_start(), 0);
    copy.next_sample();
    assert_eq!(copy.state(), OscillatorState::Play { started_at: 0 });
}

#[test]
fn oscillators_with_the_same_inputs_give_the_same_cues() {
    let mut first = press_then_release(30_000);
    let mut second = press_then_release(30_000);
    for _ in 0..20 {
        let one = first.next_grain();
        let other = second.next_grain();
        assert_eq!(one.samples, other.samples);
        assert_eq!(one.gain, other.gain);
        assert_eq!(first.state(), second.state());
    }
}

#[test]
fn envelope_never_exceeds_full_scale_and_release_never_rises() {
    let mut oscillator = press_then_release(200_000);
    let mut last_release_gain = UNITY;
    for _ in 0..60 {
        let grain = oscillator.next_grain();
        assert!(grain.gain <= UNITY);
        if let OscillatorState::Release { .. } = oscillator.state() {
            assert!(grain.gain <= last_release_gain);
            last_release_gain = grain.gain;
        }
    }
    assert_eq!(oscillator.state(), OscillatorState::Idle);
}
