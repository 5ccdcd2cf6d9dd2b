use gran::player::{combine_grains, GrainCursor, GrainQueue};
use gran::sound::{mix_grains, SAMPLES_PER_GRAIN};
use std::cell::Cell;

fn add(a: f32, b: f32) -> f32 {
    a + b
}

fn share(sum: f32, count: usize) -> f32 {
    sum / count as f32
}

#[test]
fn cursor_asks_for_a_grain_only_when_played_out() {
    let mut cursor: GrainCursor<f32> = GrainCursor::new();
    assert!(cursor.needs_grain());
    let produced = Cell::new(0);
    let mut frames = Vec::new();
    for _ in 0..7 {
        let sample = cursor.next_frame(0.0, || {
            produced.set(produced.get() + 1);
            vec![1.0, 2.0, 3.0]
        });
        frames.push(sample);
    }
    assert_eq!(frames, vec![1.0, 2.0, 3.0, 1.0, 2.0, 3.0, 1.0]);
    assert_eq!(produced.get(), 3);
}

#[test]
fn cursor_plays_silence_for_an_empty_grain() {
    let mut cursor: GrainCursor<f32> = GrainCursor::new();
    assert_eq!(cursor.next_frame(-1.0, Vec::new), -1.0);
    assert!(cursor.needs_grain());
    assert_eq!(cursor.next_sample(-1.0), -1.0);
    cursor.refill(vec![0.5]);
    assert!(!cursor.needs_grain());
    assert_eq!(cursor.next_sample(-1.0), 0.5);
    assert!(cursor.needs_grain());
}

#[test]
fn mixing_sums_without_weights() {
    let grains = vec![vec![0.5f32; SAMPLES_PER_GRAIN], vec![0.25; SAMPLES_PER_GRAIN], vec![0.125; SAMPLES_PER_GRAIN]];
    let mixed = mix_grains(&grains, SAMPLES_PER_GRAIN, 0.0, &add);
    assert_eq!(mixed, vec![0.875f32; SAMPLES_PER_GRAIN]);
    let none: Vec<Vec<f32>> = Vec::new();
    assert_eq!(mix_grains(&none, 4, 0.0, &add), vec![0.0f32; 4]);
}

#[test]
fn combining_takes_the_mean() {
    let grains = vec![vec![0.5f32, 1.0], vec![0.25, 0.0]];
    assert_eq!(combine_grains(&grains, 0.0, &add, &share), vec![0.375f32, 0.5]);
    let single = vec![vec![0.3f32, -0.3]];
    assert_eq!(combine_grains(&single, 0.0, &add, &share), vec![0.3f32, -0.3]);
}

#[test]
fn queue_hands_grains_out_in_the_order_they_came() {
    let mut queue: GrainQueue<f32> = GrainQueue::new(2);
    assert_eq!(queue.len(), 0);
    assert!(!queue.is_full());
    assert_eq!(queue.pop(), None);
    assert_eq!(queue.push(vec![1.0]), None);
    assert_eq!(queue.push(vec![2.0]), None);
    assert!(queue.is_full());
    // a full queue hands the grain back
    assert_eq!(queue.push(vec![3.0]), Some(vec![3.0]));
    assert_eq!(queue.pop(), Some(vec![1.0]));
    assert_eq!(queue.push(vec![3.0]), None);
    assert_eq!(queue.pop(), Some(vec![2.0]));
    assert_eq!(queue.pop(), Some(vec![3.0]));
    assert_eq!(queue.pop(), None);
}

#[test]
fn queue_holds_at_least_two_grains() {
    let mut queue: GrainQueue<u8> = GrainQueue::new(0);
    assert_eq!(queue.push(vec![1]), None);
    assert_eq!(queue.push(vec![2]), None);
    assert_eq!(queue.push(vec![3]), Some(vec![3]));
}
