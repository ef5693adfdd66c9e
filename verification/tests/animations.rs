use eduquest::animations::{update_animation, AnimatableLayer, RepeatingTimer, SpriteFrame};
use eduquest::error::ConfigurationError;

const EIGHTH: u64 = 125_000_000;

fn layer(clips: Vec<(usize, usize)>, repeat: bool) -> AnimatableLayer {
    AnimatableLayer::new(RepeatingTimer::new(EIGHTH), clips, 0, 0, false, repeat).unwrap()
}

fn player() -> AnimatableLayer {
    layer(vec![(0, 29), (30, 34), (35, 39), (40, 51), (52, 62)], true)
}

#[test]
fn looping_clip_returns_to_its_start_after_ten_expiries() {
    let mut spikes = layer(vec![(0, 10)], true);
    for expiry in 1..10usize {
        spikes.tick(EIGHTH);
        assert_eq!(spikes.sprite().index, expiry);
    }
    spikes.tick(EIGHTH);
    assert_eq!(spikes.sprite().index, 0);
}

#[test]
fn one_shot_clip_holds_its_last_frame() {
    let mut thinker = AnimatableLayer::new(
        RepeatingTimer::new(EIGHTH),
        vec![(0, 29), (30, 35)],
        1,
        1,
        false,
        false,
    )
    .unwrap();
    assert_eq!(thinker.sprite().index, 30);
    for _ in 0..10 {
        thinker.tick(EIGHTH);
        assert!(thinker.sprite().index <= 34);
    }
    assert_eq!(thinker.sprite().index, 34);
    thinker.tick(EIGHTH);
    assert_eq!(thinker.sprite().index, 34);
}

#[test]
fn one_shot_clip_of_one_frame_stays_on_it() {
    let mut still = layer(vec![(7, 8)], false);
    still.tick(EIGHTH);
    assert_eq!(still.sprite().index, 7);
}

#[test]
fn looping_clip_of_one_frame_stays_on_it() {
    let mut still = layer(vec![(7, 8)], true);
    still.tick(EIGHTH);
    assert_eq!(still.sprite().index, 7);
}

#[test]
fn frame_stays_until_the_timer_expires() {
    let mut spikes = layer(vec![(0, 10)], true);
    spikes.tick(EIGHTH - 1);
    assert_eq!(spikes.sprite().index, 0);
    assert_eq!(spikes.timer().elapsed_nanos, EIGHTH - 1);
    spikes.tick(1);
    assert_eq!(spikes.sprite().index, 1);
    assert_eq!(spikes.timer().elapsed_nanos, 0);
}

#[test]
fn long_frame_advances_the_animation_once() {
    let mut spikes = layer(vec![(0, 10)], true);
    spikes.tick(3 * EIGHTH + 5);
    assert_eq!(spikes.sprite().index, 1);
    assert_eq!(spikes.timer().elapsed_nanos, 5);
}

#[test]
fn requested_clip_starts_at_the_next_expiry() {
    let mut sonic = player();
    sonic.tick(EIGHTH);
    sonic.tick(EIGHTH);
    assert_eq!(sonic.sprite().index, 2);
    assert!(sonic.request_animation(3));
    assert_eq!(sonic.next_animation(), 3);
    assert_eq!(sonic.current_animation(), 0);
    sonic.tick(EIGHTH / 2);
    assert_eq!(sonic.current_animation(), 0);
    assert_eq!(sonic.sprite().index, 2);
    sonic.tick(EIGHTH / 2);
    assert_eq!(sonic.current_animation(), 3);
    assert_eq!(sonic.sprite().index, 40);
    sonic.tick(EIGHTH);
    assert_eq!(sonic.sprite().index, 41);
}

#[test]
fn unknown_clip_request_is_refused() {
    let mut sonic = player();
    assert!(!sonic.request_animation(5));
    assert_eq!(sonic.next_animation(), 0);
    assert!(sonic.request_animation(4));
    assert_eq!(sonic.next_animation(), 4);
}

#[test]
fn mirroring_is_drawn_at_the_next_frame_whatever_the_timer() {
    let mut sonic = player();
    sonic.set_flip_x(true);
    assert!(sonic.flip_x());
    assert!(!sonic.sprite().flip_x);
    sonic.tick(1);
    assert_eq!(sonic.sprite(), SpriteFrame { index: 0, flip_x: true });
    sonic.set_flip_x(false);
    sonic.tick(EIGHTH);
    assert_eq!(sonic.sprite(), SpriteFrame { index: 1, flip_x: false });
}

#[test]
fn repeat_can_be_switched_off_in_the_middle_of_a_clip() {
    let mut gate = layer(vec![(0, 3)], true);
    gate.tick(EIGHTH);
    gate.tick(EIGHTH);
    gate.tick(EIGHTH);
    assert_eq!(gate.sprite().index, 0);
    gate.set_repeat(false);
    assert!(!gate.repeat());
    for _ in 0..5 {
        gate.tick(EIGHTH);
    }
    assert_eq!(gate.sprite().index, 2);
}

#[test]
fn timer_keeps_the_remainder_of_the_period() {
    let mut timer = RepeatingTimer::new(EIGHTH);
    assert_eq!(timer, RepeatingTimer { period_nanos: EIGHTH, elapsed_nanos: 0 });
    assert!(!timer.tick(100_000_000));
    assert_eq!(timer.elapsed_nanos, 100_000_000);
    assert!(timer.tick(100_000_000));
    assert_eq!(timer.elapsed_nanos, 75_000_000);
    assert!(!timer.tick(0));
    assert_eq!(timer.elapsed_nanos, 75_000_000);
    assert!(timer.tick(10 * EIGHTH));
    assert_eq!(timer.elapsed_nanos, 75_000_000);
    assert_eq!(timer.period_nanos, EIGHTH);
}

#[test]
fn timer_of_period_zero_expires_on_every_tick() {
    let mut timer = RepeatingTimer::new(0);
    assert!(timer.tick(0));
    assert!(timer.tick(17));
    assert_eq!(timer.elapsed_nanos, 0);
}

#[test]
fn timer_counts_its_expiries_in_32_bits() {
    let mut timer = RepeatingTimer::new(1);
    assert!(!timer.tick(1 << 32));
    assert_eq!(timer.elapsed_nanos, 0);
    assert!(timer.tick((1 << 32) + 1));
    assert!(timer.tick(u64::MAX));
    let mut slow = RepeatingTimer { period_nanos: 3, elapsed_nanos: 2 };
    assert!(!slow.tick(3 * (1 << 32) - 2));
    assert_eq!(slow.elapsed_nanos, 0);
}

#[test]
fn timer_takes_the_largest_times() {
    let mut timer = RepeatingTimer { period_nanos: u64::MAX, elapsed_nanos: u64::MAX - 1 };
    assert!(timer.tick(u64::MAX));
    assert_eq!(timer.elapsed_nanos, u64::MAX - 1);
    assert!(!timer.tick(0));
    assert!(timer.tick(1));
    assert_eq!(timer.elapsed_nanos, 0);
}

#[test]
fn malformed_clip_is_refused() {
    let empty = AnimatableLayer::new(RepeatingTimer::new(EIGHTH), vec![(0, 10), (5, 5)], 0, 0, false, true);
    assert_eq!(empty.err(), Some(ConfigurationError::MalformedClip));
    let backwards = AnimatableLayer::new(RepeatingTimer::new(EIGHTH), vec![(10, 0)], 0, 0, false, true);
    assert_eq!(backwards.err(), Some(ConfigurationError::MalformedClip));
    let both = AnimatableLayer::new(RepeatingTimer::new(EIGHTH), vec![(10, 0)], 3, 0, false, true);
    assert_eq!(both.err(), Some(ConfigurationError::MalformedClip));
}

#[test]
fn unknown_clip_is_refused() {
    let current = AnimatableLayer::new(RepeatingTimer::new(EIGHTH), vec![(0, 10)], 1, 0, false, true);
    assert_eq!(current.err(), Some(ConfigurationError::UnknownClip));
    let next = AnimatableLayer::new(RepeatingTimer::new(EIGHTH), vec![(0, 10)], 0, 1, false, true);
    assert_eq!(next.err(), Some(ConfigurationError::UnknownClip));
    let none = AnimatableLayer::new(RepeatingTimer::new(EIGHTH), vec![], 0, 0, false, true);
    assert_eq!(none.err(), Some(ConfigurationError::UnknownClip));
}

#[test]
fn new_layer_shows_the_first_frame_of_its_clip() {
    let made = AnimatableLayer::new(
        RepeatingTimer::new(EIGHTH),
        vec![(0, 29), (30, 34)],
        1,
        0,
        true,
        false,
    )
    .unwrap();
    assert_eq!(made.sprite(), SpriteFrame { index: 30, flip_x: true });
    assert_eq!(made.current_animation(), 1);
    assert_eq!(made.next_animation(), 0);
    assert_eq!(made.animations(), &vec![(0, 29), (30, 34)]);
    assert_eq!(made.timer(), RepeatingTimer::new(EIGHTH));
    assert!(made.flip_x());
    assert!(!made.repeat());
}

#[test]
fn batch_update_ticks_every_layer() {
    let mut layers = vec![layer(vec![(0, 10)], true), layer(vec![(3, 5)], true)];
    update_animation(&mut layers, EIGHTH);
    assert_eq!(layers[0].sprite(), SpriteFrame { index: 1, flip_x: false });
    assert_eq!(layers[1].sprite(), SpriteFrame { index: 4, flip_x: false });
    update_animation(&mut layers, EIGHTH);
    assert_eq!(layers[0].sprite().index, 2);
    assert_eq!(layers[1].sprite().index, 3);
    let mut none: Vec<AnimatableLayer> = Vec::new();
    update_animation(&mut none, EIGHTH);
    assert!(none.is_empty());
}
