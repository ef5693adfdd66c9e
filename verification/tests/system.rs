use bevy::ecs::entity::Entity;
use eduquest::system::{
    cleanup_after_state, next_level, settle, CurrentLevel, GameState, GameStateMachine, StateTag,
    Transition, FINAL_LEVEL_THRESHOLD,
};

fn tag(raw: u32, state: GameState) -> StateTag {
    StateTag { entity: Entity::from_raw(raw), state }
}

fn handles(tags: &[StateTag]) -> Vec<Entity> {
    tags.iter().map(|tag| tag.entity).collect()
}

#[test]
fn machine_starts_in_pre_loading() {
    let machine = GameStateMachine::new();
    assert_eq!(machine.current(), GameState::PreLoading);
    assert_eq!(machine.requested(), None);
    assert_eq!(GameState::default(), GameState::PreLoading);
}

#[test]
fn level_counter_starts_at_one() {
    assert_eq!(CurrentLevel::new(), CurrentLevel(1));
}

#[test]
fn request_waits_for_the_commit() {
    let mut machine = GameStateMachine::new();
    machine.request_transition(GameState::AssetLoading);
    assert_eq!(machine.current(), GameState::PreLoading);
    assert_eq!(machine.requested(), Some(GameState::AssetLoading));
    let change = machine.commit();
    assert_eq!(change, Some(Transition { from: GameState::PreLoading, to: GameState::AssetLoading }));
    assert_eq!(machine.current(), GameState::AssetLoading);
    assert_eq!(machine.requested(), None);
}

#[test]
fn last_request_of_a_frame_wins() {
    let mut machine = GameStateMachine::new();
    machine.request_transition(GameState::MainMenu);
    machine.request_transition(GameState::GameOver);
    machine.request_transition(GameState::InGame);
    assert_eq!(machine.requested(), Some(GameState::InGame));
    let change = machine.commit();
    assert_eq!(change, Some(Transition { from: GameState::PreLoading, to: GameState::InGame }));
    assert_eq!(machine.current(), GameState::InGame);
}

#[test]
fn commit_without_a_request_changes_nothing() {
    let mut machine = GameStateMachine::new();
    assert_eq!(machine.commit(), None);
    assert_eq!(machine.current(), GameState::PreLoading);
    assert_eq!(machine.requested(), None);
}

#[test]
fn request_for_the_current_state_is_no_transition() {
    let mut machine = GameStateMachine::new();
    machine.request_transition(GameState::InGame);
    machine.commit();
    machine.request_transition(GameState::InGame);
    assert_eq!(machine.commit(), None);
    assert_eq!(machine.current(), GameState::InGame);
    assert_eq!(machine.requested(), None);
}

#[test]
fn overwritten_request_never_commits() {
    let mut machine = GameStateMachine::new();
    machine.request_transition(GameState::GameOver);
    machine.request_transition(GameState::PreLoading);
    assert_eq!(machine.commit(), None);
    assert_eq!(machine.current(), GameState::PreLoading);
}

#[test]
fn sweep_removes_the_objects_of_other_states() {
    let mut tags = vec![
        tag(1, GameState::MainMenu),
        tag(2, GameState::InGame),
        tag(3, GameState::MainMenu),
        tag(4, GameState::AssetLoading),
        tag(5, GameState::InGame),
    ];
    let despawned = cleanup_after_state(GameState::InGame, &mut tags);
    assert_eq!(despawned, vec![Entity::from_raw(1), Entity::from_raw(3), Entity::from_raw(4)]);
    assert_eq!(handles(&tags), vec![Entity::from_raw(2), Entity::from_raw(5)]);
    assert!(tags.iter().all(|tag| tag.state == GameState::InGame));
}

#[test]
fn second_sweep_is_idle() {
    let mut tags = vec![
        tag(1, GameState::MainMenu),
        tag(2, GameState::InGame),
        tag(3, GameState::GameOver),
    ];
    cleanup_after_state(GameState::InGame, &mut tags);
    let again = cleanup_after_state(GameState::InGame, &mut tags);
    assert!(again.is_empty());
    assert_eq!(handles(&tags), vec![Entity::from_raw(2)]);
}

#[test]
fn sweep_of_an_empty_world_is_idle() {
    let mut tags: Vec<StateTag> = Vec::new();
    assert!(cleanup_after_state(GameState::MainMenu, &mut tags).is_empty());
    assert!(tags.is_empty());
}

#[test]
fn settle_sweeps_by_the_state_entered() {
    let mut machine = GameStateMachine::new();
    machine.request_transition(GameState::MainMenu);
    machine.commit();
    let mut tags = vec![
        tag(1, GameState::MainMenu),
        tag(2, GameState::MainMenu),
        tag(3, GameState::InGame),
    ];
    machine.request_transition(GameState::InGame);
    let (change, despawned) = settle(&mut machine, &mut tags);
    assert_eq!(change, Some(Transition { from: GameState::MainMenu, to: GameState::InGame }));
    assert_eq!(despawned, vec![Entity::from_raw(1), Entity::from_raw(2)]);
    assert_eq!(handles(&tags), vec![Entity::from_raw(3)]);
    assert_eq!(machine.current(), GameState::InGame);
    let (change, despawned) = settle(&mut machine, &mut tags);
    assert_eq!(change, None);
    assert!(despawned.is_empty());
    assert_eq!(handles(&tags), vec![Entity::from_raw(3)]);
}

#[test]
fn completed_level_leads_on_by_the_counter() {
    assert_eq!(FINAL_LEVEL_THRESHOLD, 3);
    for (level, to) in [
        (0, GameState::InGame),
        (1, GameState::InGame),
        (2, GameState::InGame),
        (3, GameState::FullCompletion),
        (4, GameState::FullCompletion),
        (255, GameState::FullCompletion),
    ] {
        let mut machine = GameStateMachine::new();
        next_level(&CurrentLevel(level), &mut machine);
        assert_eq!(machine.requested(), Some(to));
        assert_eq!(machine.current(), GameState::PreLoading);
    }
}

#[test]
fn entering_the_game_with_every_level_done_leads_to_the_end() {
    let mut machine = GameStateMachine::new();
    machine.request_transition(GameState::InGame);
    machine.commit();
    next_level(&CurrentLevel(3), &mut machine);
    assert_eq!(
        machine.commit(),
        Some(Transition { from: GameState::InGame, to: GameState::FullCompletion })
    );

    let mut machine = GameStateMachine::new();
    machine.request_transition(GameState::InGame);
    machine.commit();
    next_level(&CurrentLevel(2), &mut machine);
    assert_eq!(machine.commit(), None);
    assert_eq!(machine.current(), GameState::InGame);
}
