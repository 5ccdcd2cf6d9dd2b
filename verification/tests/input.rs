use gran::oscillator::input::sort_by_time;
use gran::oscillator::{
    note, OscillatorInput, OscillatorInputAtTime, OscillatorInputIterator,
    OscillatorInputIteratorBuilder,
};

fn at(input: OscillatorInput, time: u64) -> OscillatorInputAtTime {
    OscillatorInputAtTime { input, time }
}

#[test]
fn queue_sends_inputs_in_order_as_they_come_due() {
    let mut queue = OscillatorInputIterator::new(
        vec![at(OscillatorInput::Press(440_000), 0), at(OscillatorInput::Release, 300_000)],
        None,
    );
    assert_eq!(queue.next(0), Some(at(OscillatorInput::Press(440_000), 0)));
    assert_eq!(queue.next(0), None);
    assert_eq!(queue.next(299_999), None);
    assert_eq!(queue.next(300_000), Some(at(OscillatorInput::Release, 300_000)));
    // nothing is left, and nothing repeats
    assert_eq!(queue.next(u64::MAX), None);
}

#[test]
fn queue_sends_one_input_per_call() {
    let mut queue = OscillatorInputIterator::new(
        vec![at(OscillatorInput::PressSame, 10), at(OscillatorInput::Release, 20)],
        None,
    );
    assert_eq!(queue.next(1_000), Some(at(OscillatorInput::PressSame, 10)));
    assert_eq!(queue.next(1_000), Some(at(OscillatorInput::Release, 20)));
    assert_eq!(queue.next(1_000), None);
}

#[test]
fn queue_repeats_after_its_delay() {
    let mut queue = OscillatorInputIteratorBuilder::new()
        .input(at(OscillatorInput::Press(130_813), 0))
        .input(at(OscillatorInput::Release, 300_000))
        .repeat_after(250_000)
        .build();
    assert_eq!(queue.next(0), Some(at(OscillatorInput::Press(130_813), 0)));
    assert_eq!(queue.next(300_000), Some(at(OscillatorInput::Release, 300_000)));
    // the second round starts 300 000 + 250 000 microseconds later
    assert_eq!(queue.next(549_999), None);
    assert_eq!(queue.next(550_000), Some(at(OscillatorInput::Press(130_813), 550_000)));
    assert_eq!(queue.next(850_000), Some(at(OscillatorInput::Release, 850_000)));
    // and the third as much later again
    assert_eq!(queue.next(1_100_000), Some(at(OscillatorInput::Press(130_813), 1_100_000)));
}

#[test]
fn queue_times_stop_at_the_end_of_time() {
    let mut queue = OscillatorInputIteratorBuilder::new()
        .input(at(OscillatorInput::PressSame, 5))
        .input(at(OscillatorInput::Release, u64::MAX - 2))
        .repeat_after(10)
        .build();
    assert_eq!(queue.next(u64::MAX), Some(at(OscillatorInput::PressSame, 5)));
    assert_eq!(queue.next(u64::MAX), Some(at(OscillatorInput::Release, u64::MAX - 2)));
    assert_eq!(queue.next(u64::MAX - 1), None);
    assert_eq!(queue.next(u64::MAX), Some(at(OscillatorInput::PressSame, u64::MAX)));
    assert_eq!(queue.next(u64::MAX), Some(at(OscillatorInput::Release, u64::MAX)));
}

#[test]
fn note_names_give_frequencies() {
    assert_eq!(note("A4"), Some(440_000));
    assert_eq!(note("A9"), Some(14_080_000));
    assert_eq!(note("A0"), Some(27_500));
    assert_eq!(note("C4"), Some(8_372_018 / 32));
    assert_eq!(note("C#3"), Some(8_869_844 / 64));
    assert_eq!(note("B9"), Some(15_804_266));
}

#[test]
fn note_frequencies_follow_equal_temperament() {
    let names = ["C", "C#", "D", "D#", "E", "F", "F#", "G", "G#", "A", "A#", "B"];
    for octave in 0..=9i32 {
        for (index, name) in names.iter().enumerate() {
            let semitones = (index as i32 - 9) + (octave - 4) * 12;
            let exact = 440_000.0 * 2.0f64.powf(semitones as f64 / 12.0);
            let found = note(&format!("{}{}", name, octave)).unwrap() as f64;
            assert!((found - exact).abs() <= 1.0, "{}{}: {} against {}", name, octave, found, exact);
        }
    }
}

#[test]
fn what_is_no_note_has_no_frequency() {
    for name in ["", "A", "4", "H4", "E#4", "B#2", "Ab4", "A44", "a4", "A#", "C##1", "A-1", "é4"] {
        assert_eq!(note(name), None, "{}", name);
    }
}

#[test]
fn queue_sends_inputs_in_the_order_of_their_times() {
    let mut queue = OscillatorInputIteratorBuilder::new()
        .input(at(OscillatorInput::Release, 300))
        .input(at(OscillatorInput::Press(1), 100))
        .input(at(OscillatorInput::PressSame, 200))
        .input(at(OscillatorInput::Press(2), 100))
        .build();
    // inputs of the same time keep the order in which they were given
    assert_eq!(queue.next(1_000), Some(at(OscillatorInput::Press(1), 100)));
    assert_eq!(queue.next(1_000), Some(at(OscillatorInput::Press(2), 100)));
    assert_eq!(queue.next(1_000), Some(at(OscillatorInput::PressSame, 200)));
    assert_eq!(queue.next(1_000), Some(at(OscillatorInput::Release, 300)));
    assert_eq!(queue.next(1_000), None);
}

#[test]
fn sorting_keeps_what_is_in_order() {
    let inputs = vec![
        at(OscillatorInput::Press(1), 0),
        at(OscillatorInput::Release, 5),
        at(OscillatorInput::Press(2), 5),
        at(OscillatorInput::Release, 9),
    ];
    assert_eq!(sort_by_time(inputs.clone()), inputs);
    assert_eq!(sort_by_time(Vec::new()), Vec::new());
    let backwards: Vec<OscillatorInputAtTime> = (0..50).rev().map(|time| at(OscillatorInput::PressSame, time)).collect();
    let forwards: Vec<OscillatorInputAtTime> = (0..50).map(|time| at(OscillatorInput::PressSame, time)).collect();
    assert_eq!(sort_by_time(backwards), forwards);
}

#[test]
fn a_round_is_as_long_as_the_latest_input_and_the_delay() {
    let mut queue = OscillatorInputIterator::new(
        vec![at(OscillatorInput::Release, 40), at(OscillatorInput::PressSame, 10)],
        Some(5),
    );
    assert_eq!(queue.next(100), Some(at(OscillatorInput::PressSame, 10)));
    assert_eq!(queue.next(100), Some(at(OscillatorInput::Release, 40)));
    assert_eq!(queue.next(54), None);
    assert_eq!(queue.next(55), Some(at(OscillatorInput::PressSame, 55)));
    assert_eq!(queue.next(85), Some(at(OscillatorInput::Release, 85)));
}
