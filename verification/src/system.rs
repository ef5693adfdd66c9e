//! The global state machine, the level counter and the sweep that removes
//! the objects of a state that has been left.

use bevy::ecs::entity::Entity;
use vstd::prelude::*;

verus! {

/// Handle of an object in the engine's world (`bevy::ecs::entity::Entity`).
/// The library never looks inside one: it stores the handles it is given and
/// hands them back. Nothing is claimed of the type beyond its existence.
#[verifier::external_type_specification]
#[verifier::external_body]
pub struct ExEntity(Entity);

/// The screens the game can be in. Exactly one of them is current at a time.
#[derive(Clone, Copy, Debug, PartialEq, Eq, Hash, Structural)]
pub enum GameState {
    PreLoading,
    AssetLoading,
    MainMenu,
    InGame,
    GameOver,
    LevelCompleted,
    FullCompletion,
}

impl Default for GameState {
    fn default() -> (state: GameState)
        ensures
            state == GameState::PreLoading,
    {
        GameState::PreLoading
    }
}

/// The number of the level that is played, or that is played next. It
/// counts up and is never set back: after a failure the same level is played
/// again.
#[derive(Clone, Copy, Debug, PartialEq, Eq, Hash, Structural)]
pub struct CurrentLevel(pub u8);

impl CurrentLevel {
    /// The counter at the start of the game: the first level is due.
    pub fn new() -> (level: CurrentLevel)
        ensures
            level == CurrentLevel(1),
    {
        CurrentLevel(1)
    }
}

/// The signal that a quiz was closed. Its flag says whether the zones stay
/// armed (`true`: the quiz was dismissed) or go idle (`false`: it was answered).
#[derive(Clone, Copy, Debug, PartialEq, Eq, Hash, Structural)]
pub struct QuizClear(pub bool);

/// A committed change of state.
#[derive(Clone, Copy, Debug, PartialEq, Eq, Structural)]
pub struct Transition {
    pub from: GameState,
    pub to: GameState,
}

/// What a `GameStateMachine` holds: the current state and the request slot.
pub struct StateSlots {
    pub current: GameState,
    pub requested: Option<GameState>,
}

impl StateSlots {
    /// The slots after a request for `to`: it takes the place of any earlier one.
    pub open spec fn request(self, to: GameState) -> StateSlots {
        StateSlots { current: self.current, requested: Some(to) }
    }

    /// The slots after the requests `tos`, made in that order.
    pub open spec fn request_all(self, tos: Seq<GameState>) -> StateSlots
        decreases tos.len(),
    {
        if tos.len() == 0 {
            self
        } else {
            self.request_all(tos.drop_last()).request(tos.last())
        }
    }

    /// The slots after the commit point of a frame.
    pub open spec fn commit(self) -> StateSlots {
        StateSlots {
            current: match self.requested {
                Some(to) => to,
                None => self.current,
            },
            requested: None,
        }
    }

    /// The change of state that the commit point of a frame brings, if any.
    /// A request for the state that is current already changes nothing.
    pub open spec fn transition(self) -> Option<Transition> {
        match self.requested {
            Some(to) => if to != self.current {
                Some(Transition { from: self.current, to })
            } else {
                None
            },
            None => None,
        }
    }
}

/// The one owner of the current state and of the pending request.
#[derive(Clone, Copy, Debug)]
pub struct GameStateMachine {
    current: GameState,
    next: Option<GameState>,
}

impl View for GameStateMachine {
    type V = StateSlots;

    closed spec fn view(&self) -> StateSlots {
        StateSlots { current: self.current, requested: self.next }
    }
}

impl GameStateMachine {
    /// A machine in the initial state, with nothing requested.
    pub fn new() -> (machine: GameStateMachine)
        ensures
            machine@ == (StateSlots { current: GameState::PreLoading, requested: None }),
    {
        GameStateMachine { current: GameState::PreLoading, next: None }
    }

    /// The state that the game is in.
    pub fn current(&self) -> (state: GameState)
        ensures
            state == self@.current,
    {
        self.current
    }

    /// The request that the next commit will apply, if there is one.
    pub fn requested(&self) -> (next: Option<GameState>)
        ensures
            next == self@.requested,
    {
        self.next
    }

    /// Queues the change to `to`. The current state stays until `commit`.
    pub fn request_transition(&mut self, to: GameState)
        ensures
            final(self)@ == old(self)@.request(to),
    {
        self.next = Some(to);
    }

    /// Applies the pending request and empties the slot. Returns the change of
    /// state, if the request named another state than the current one.
    pub fn commit(&mut self) -> (change: Option<Transition>)
        ensures
            final(self)@ == old(self)@.commit(),
            change == old(self)@.transition(),
    {
        let from = self.current;
        let pending = self.next;
        self.next = None;
        match pending {
            Some(to) => {
                self.current = to;
                if to != from {
                    Some(Transition { from, to })
                } else {
                    None
                }
            },
            None => None,
        }
    }
}

/// The tag of an object: the state that the object was made for.
#[derive(Clone, Copy, Debug)]
pub struct StateTag {
    pub entity: Entity,
    pub state: GameState,
}

/// The tagged objects that stay when `state` is current: those made for it.
pub open spec fn survivors(state: GameState, tags: Seq<StateTag>) -> Seq<StateTag> {
    tags.filter(|tag: StateTag| tag.state == state)
}

/// The objects that go when `state` is current: those made for another state.
pub open spec fn stale(state: GameState, tags: Seq<StateTag>) -> Seq<Entity> {
    tags.filter(|tag: StateTag| tag.state != state).map_values(|tag: StateTag| tag.entity)
}

/// Removes the objects of the states that were left. `tags` lists the tagged
/// objects of the world: an object without a tag is not among them, and is
/// never touched. The objects made for another state than `state` leave the
/// list and are returned, for the caller to destroy with all that they own.
pub fn cleanup_after_state(state: GameState, tags: &mut Vec<StateTag>) -> (despawned: Vec<Entity>)
    ensures
        final(tags)@ == survivors(state, old(tags)@),
        despawned@ == stale(state, old(tags)@),
{
    let ghost stays = |tag: StateTag| tag.state == state;
    let ghost goes = |tag: StateTag| tag.state != state;
    let mut kept: Vec<StateTag> = Vec::new();
    let mut despawned: Vec<Entity> = Vec::new();
    let mut i: usize = 0;
    proof {
        reveal(Seq::filter);
        assert(tags@.take(0) =~= Seq::empty());
    }
    while i < tags.len()
        invariant
            i <= tags.len(),
            tags@ == old(tags)@,
            stays == |tag: StateTag| tag.state == state,
            goes == |tag: StateTag| tag.state != state,
            kept@ == survivors(state, tags@.take(i as int)),
            despawned@ == stale(state, tags@.take(i as int)),
        decreases tags.len() - i,
    {
        proof {
            lemma_filter_next(tags@, stays, i as int);
            lemma_filter_next(tags@, goes, i as int);
        }
        let tag = tags[i];
        if tag.state == state {
            kept.push(tag);
        } else {
            despawned.push(tag.entity);
            assert(despawned@ =~= stale(state, tags@.take(i + 1)));
        }
        i += 1;
    }
    assert(tags@.take(i as int) =~= tags@);
    *tags = kept;
    despawned
}

/// The commit point of a frame: the pending request is applied, and then the
/// objects of the states that were left are removed. The sweep goes by the
/// state that is current after the commit, so it never takes an object made
/// for the state that was just entered.
pub fn settle(machine: &mut GameStateMachine, tags: &mut Vec<StateTag>) -> (settled: (
    Option<Transition>,
    Vec<Entity>,
))
    ensures
        final(machine)@ == old(machine)@.commit(),
        settled.0 == old(machine)@.transition(),
        final(tags)@ == survivors(old(machine)@.commit().current, old(tags)@),
        settled.1@ == stale(old(machine)@.commit().current, old(tags)@),
{
    let change = machine.commit();
    let despawned = cleanup_after_state(machine.current(), tags);
    (change, despawned)
}

/// The level counter from which on the game is complete.
pub const FINAL_LEVEL_THRESHOLD: u8 = 3;

/// Where a completed level leads: into the game again while the counter is
/// below the threshold, and to the end of the game from there on.
pub open spec fn after_level(level: CurrentLevel) -> GameState {
    if level.0 < FINAL_LEVEL_THRESHOLD {
        GameState::InGame
    } else {
        GameState::FullCompletion
    }
}

/// Run on entering `LevelCompleted`: requests the state that follows, by the
/// level counter.
pub fn next_level(level: &CurrentLevel, machine: &mut GameStateMachine)
    ensures
        final(machine)@ == old(machine)@.request(after_level(*level)),
{
    let to = if level.0 < FINAL_LEVEL_THRESHOLD {
        GameState::InGame
    } else {
        GameState::FullCompletion
    };
    machine.request_transition(to);
}

/// What `filter` keeps of the first `i + 1` items, from what it keeps of the
/// first `i`; and it keeps no more of them than of all.
pub(crate) proof fn lemma_filter_next<A>(items: Seq<A>, keep: spec_fn(A) -> bool, i: int)
    requires
        0 <= i < items.len(),
    ensures
        items.take(i + 1).filter(keep) == (if keep(items[i]) {
            items.take(i).filter(keep).push(items[i])
        } else {
            items.take(i).filter(keep)
        }),
        items.take(i + 1).filter(keep).len() <= items.filter(keep).len(),
{
    reveal(Seq::filter);
    assert(items.take(i + 1).drop_last() =~= items.take(i));
    assert(items =~= items.take(i + 1) + items.skip(i + 1));
    Seq::filter_distributes_over_add(items.take(i + 1), items.skip(i + 1), keep);
}

/// After the sweep for `state` every object that is left was made for
/// `state`, and every object that was made for it is left: the sweep keeps
/// exactly these, and in their order.
pub proof fn sweep_keeps_the_current_state(state: GameState, tags: Seq<StateTag>)
    ensures
        forall|i: int|
            0 <= i < survivors(state, tags).len() ==> (#[trigger] survivors(state, tags)[i]).state
                == state,
        forall|i: int|
            0 <= i < tags.len() && (#[trigger] tags[i]).state == state ==> survivors(
                state,
                tags,
            ).contains(tags[i]),
        forall|i: int|
            0 <= i < survivors(state, tags).len() ==> tags.contains(
                #[trigger] survivors(state, tags)[i],
            ),
    decreases tags.len(),
{
    reveal(Seq::filter);
    if tags.len() > 0 {
        let earlier = tags.drop_last();
        sweep_keeps_the_current_state(state, earlier);
        let kept = survivors(state, tags);
        assert forall|i: int| 0 <= i < tags.len() && (#[trigger] tags[i]).state == state implies kept.contains(
            tags[i],
        ) by {
            if i < earlier.len() {
                assert(earlier[i] == tags[i]);
                let k = choose|k: int|
                    0 <= k < survivors(state, earlier).len() && survivors(state, earlier)[k]
                        == tags[i];
                assert(kept[k] == tags[i]);
            } else {
                assert(kept[kept.len() - 1] == tags[i]);
            }
        }
        assert forall|i: int| 0 <= i < kept.len() implies tags.contains(#[trigger] kept[i]) by {
            if i < survivors(state, earlier).len() {
                assert(kept[i] == survivors(state, earlier)[i]);
                let k = choose|k: int| 0 <= k < earlier.len() && earlier[k] == kept[i];
                assert(tags[k] == kept[i]);
            } else {
                assert(tags[tags.len() - 1] == kept[i]);
            }
        }
    }
}

/// Whether `object` is listed with a tag for another state than `state`.
pub open spec fn made_for_another_state(state: GameState, tags: Seq<StateTag>, object: Entity) -> bool {
    exists|i: int|
        0 <= i < tags.len() && (#[trigger] tags[i]).state != state && tags[i].entity == object
}

/// The sweep for `state` destroys the objects that were made for another
/// state, all of them and no others.
pub proof fn sweep_destroys_the_stale(state: GameState, tags: Seq<StateTag>)
    ensures
        forall|i: int|
            0 <= i < tags.len() && (#[trigger] tags[i]).state != state ==> stale(
                state,
                tags,
            ).contains(tags[i].entity),
        forall|k: int|
            0 <= k < stale(state, tags).len() ==> made_for_another_state(
                state,
                tags,
                #[trigger] stale(state, tags)[k],
            ),
    decreases tags.len(),
{
    reveal(Seq::filter);
    if tags.len() > 0 {
        let earlier = tags.drop_last();
        sweep_destroys_the_stale(state, earlier);
        let gone = stale(state, tags);
        let gone_earlier = stale(state, earlier);
        assert forall|i: int| 0 <= i < tags.len() && (#[trigger] tags[i]).state != state implies gone.contains(
            tags[i].entity,
        ) by {
            if i < earlier.len() {
                assert(earlier[i] == tags[i]);
                let k = choose|k: int| 0 <= k < gone_earlier.len() && gone_earlier[k] == tags[i].entity;
                assert(gone[k] == tags[i].entity);
            } else {
                assert(gone[gone.len() - 1] == tags[i].entity);
            }
        }
        assert forall|k: int| 0 <= k < gone.len() implies made_for_another_state(
            state,
            tags,
            #[trigger] gone[k],
        ) by {
            if k < gone_earlier.len() {
                assert(gone[k] == gone_earlier[k]);
                assert(made_for_another_state(state, earlier, gone_earlier[k]));
                let i = choose|i: int|
                    0 <= i < earlier.len() && (#[trigger] earlier[i]).state != state
                        && earlier[i].entity == gone_earlier[k];
                assert(tags[i] == earlier[i]);
            } else {
                assert(tags[tags.len() - 1].entity == gone[k]);
            }
        }
    }
}

/// Whether no object is listed twice.
pub open spec fn distinct_objects(tags: Seq<StateTag>) -> bool {
    forall|i: int, j: int|
        0 <= i < j < tags.len() ==> (#[trigger] tags[i]).entity != (#[trigger] tags[j]).entity
}

/// The sweep for `state` destroys no object that was made for `state`.
pub proof fn sweep_spares_the_current_state(state: GameState, tags: Seq<StateTag>)
    requires
        distinct_objects(tags),
    ensures
        forall|i: int|
            0 <= i < tags.len() && (#[trigger] tags[i]).state == state ==> !stale(
                state,
                tags,
            ).contains(tags[i].entity),
{
    sweep_destroys_the_stale(state, tags);
    let gone = stale(state, tags);
    assert forall|i: int| 0 <= i < tags.len() && (#[trigger] tags[i]).state == state implies !gone.contains(
        tags[i].entity,
    ) by {
        if gone.contains(tags[i].entity) {
            let k = choose|k: int| 0 <= k < gone.len() && gone[k] == tags[i].entity;
            assert(made_for_another_state(state, tags, gone[k]));
            let j = choose|j: int|
                0 <= j < tags.len() && (#[trigger] tags[j]).state != state && tags[j].entity
                    == gone[k];
            assert(i != j);
            if i < j {
                assert(tags[i].entity != tags[j].entity);
            } else {
                assert(tags[j].entity != tags[i].entity);
            }
        }
    }
}

/// When a request for `to` has been committed and the sweep has run, no
/// object that was made for another state is left: each of them is among
/// those destroyed. Every object that was made for `to` before the change is
/// left, and where no object is listed twice none of them is destroyed.
pub proof fn transition_sweeps_the_states_left(slots: StateSlots, to: GameState, tags: Seq<StateTag>)
    requires
        slots.requested == Some(to),
    ensures
        slots.commit().current == to,
        forall|i: int|
            0 <= i < survivors(to, tags).len() ==> (#[trigger] survivors(to, tags)[i]).state == to,
        forall|i: int|
            0 <= i < tags.len() && (#[trigger] tags[i]).state != to ==> stale(to, tags).contains(
                tags[i].entity,
            ),
        forall|i: int|
            0 <= i < tags.len() && (#[trigger] tags[i]).state == to ==> survivors(to, tags).contains(
                tags[i],
            ),
        distinct_objects(tags) ==> forall|i: int|
            0 <= i < tags.len() && (#[trigger] tags[i]).state == to ==> !stale(to, tags).contains(
                tags[i].entity,
            ),
{
    sweep_keeps_the_current_state(to, tags);
    sweep_destroys_the_stale(to, tags);
    if distinct_objects(tags) {
        sweep_spares_the_current_state(to, tags);
    }
}

/// A second sweep for the same state, with no change of state between the
/// two, finds nothing to destroy and leaves the list as it is.
pub proof fn second_sweep_is_idle(state: GameState, tags: Seq<StateTag>)
    ensures
        stale(state, survivors(state, tags)) == Seq::<Entity>::empty(),
        survivors(state, survivors(state, tags)) == survivors(state, tags),
    decreases tags.len(),
{
    reveal(Seq::filter);
    if tags.len() > 0 {
        second_sweep_is_idle(state, tags.drop_last());
        let earlier = survivors(state, tags.drop_last());
        if tags.last().state == state {
            assert(earlier.push(tags.last()).drop_last() =~= earlier);
        }
    }
    assert(stale(state, survivors(state, tags)) =~= Seq::<Entity>::empty());
}

/// Of any run of requests made before a commit, the last one is committed:
/// it becomes the current state, and the slot is empty again.
pub proof fn last_request_wins(slots: StateSlots, tos: Seq<GameState>)
    requires
        tos.len() > 0,
    ensures
        slots.request_all(tos).requested == Some(tos.last()),
        slots.request_all(tos).commit() == (StateSlots { current: tos.last(), requested: None }),
{
}

/// A request for the state that is current already brings no change of
/// state: the commit empties the slot and leaves the state as it is.
pub proof fn request_for_the_current_state_changes_nothing(slots: StateSlots)
    ensures
        slots.request(slots.current).transition() is None,
        slots.request(slots.current).commit() == (StateSlots {
            current: slots.current,
            requested: None,
        }),
{
}

/// Requests change nothing but the slot: the current state stays as it is
/// until the commit.
pub proof fn requests_keep_current(slots: StateSlots, tos: Seq<GameState>)
    ensures
        slots.request_all(tos).current == slots.current,
        tos.len() == 0 ==> slots.request_all(tos) == slots,
    decreases tos.len(),
{
    if tos.len() > 0 {
        requests_keep_current(slots, tos.drop_last());
    }
}

} // verus!
