use eduquest::animations::{AnimatableLayer, RepeatingTimer};
use eduquest::player::{
    movement_impulse, update_player_movement, Impulse, MovementInput, Side, IDLE_CLIP, JUMP_CLIP,
    QUIZ_CLIP, RUN_CLIP,
};

fn sonic() -> AnimatableLayer {
    AnimatableLayer::new(
        RepeatingTimer::new(125_000_000),
        vec![(0, 29), (30, 34), (35, 39), (40, 51), (52, 62)],
        0,
        0,
        false,
        true,
    )
    .unwrap()
}

fn input(immobile: bool, jump_pressed: bool, grounded: bool, left: bool, right: bool) -> MovementInput {
    MovementInput { immobile, jump_pressed, grounded, left, right }
}

#[test]
fn clips_have_their_places() {
    assert_eq!((IDLE_CLIP, QUIZ_CLIP, RUN_CLIP, JUMP_CLIP), (0, 1, 3, 4));
}

#[test]
fn immobile_player_is_halted() {
    let impulse = movement_impulse(&input(true, true, true, true, true));
    assert_eq!(impulse, Impulse { halt: true, jump: false, push: None });
}

#[test]
fn jump_needs_ground() {
    assert!(movement_impulse(&input(false, true, true, false, false)).jump);
    assert!(!movement_impulse(&input(false, true, false, false, false)).jump);
    assert!(!movement_impulse(&input(false, false, true, false, false)).jump);
}

#[test]
fn push_goes_to_the_side_held() {
    assert_eq!(movement_impulse(&input(false, false, true, true, false)).push, Some(Side::Left));
    assert_eq!(movement_impulse(&input(false, false, true, false, true)).push, Some(Side::Right));
    assert_eq!(movement_impulse(&input(false, false, true, true, true)).push, Some(Side::Left));
    assert_eq!(
        movement_impulse(&input(false, false, false, false, false)),
        Impulse { halt: false, jump: false, push: None }
    );
}

#[test]
fn immobile_player_plays_the_quiz_clip_once() {
    let mut layer = sonic();
    layer.set_flip_x(true);
    update_player_movement(&input(true, true, true, false, true), false, &mut layer);
    assert_eq!(layer.next_animation(), QUIZ_CLIP);
    assert!(!layer.repeat());
    assert!(layer.flip_x());
}

#[test]
fn jumping_player_plays_the_jump_clip() {
    let mut layer = sonic();
    update_player_movement(&input(false, true, true, false, false), true, &mut layer);
    assert_eq!(layer.next_animation(), JUMP_CLIP);
    assert!(layer.repeat());
}

#[test]
fn player_on_ground_runs_or_idles() {
    let mut layer = sonic();
    update_player_movement(&input(false, false, true, false, true), false, &mut layer);
    assert_eq!(layer.next_animation(), RUN_CLIP);
    assert!(!layer.flip_x());
    update_player_movement(&input(false, false, true, true, false), false, &mut layer);
    assert!(layer.flip_x());
    update_player_movement(&input(false, false, true, false, false), true, &mut layer);
    assert_eq!(layer.next_animation(), IDLE_CLIP);
    assert!(layer.flip_x());
}

#[test]
fn player_in_the_air_keeps_the_clip() {
    let mut layer = sonic();
    layer.request_animation(JUMP_CLIP);
    layer.set_repeat(false);
    update_player_movement(&input(false, true, false, false, false), true, &mut layer);
    assert_eq!(layer.next_animation(), JUMP_CLIP);
    assert!(layer.repeat());
}

#[test]
fn layer_without_the_clip_keeps_its_own() {
    let mut spikes =
        AnimatableLayer::new(RepeatingTimer::new(125_000_000), vec![(0, 10)], 0, 0, false, true).unwrap();
    update_player_movement(&input(false, true, true, false, false), false, &mut spikes);
    assert_eq!(spikes.next_animation(), 0);
    update_player_movement(&input(true, false, true, false, false), false, &mut spikes);
    assert_eq!(spikes.next_animation(), 0);
    assert!(!spikes.repeat());
}
