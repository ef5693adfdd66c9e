//! Sensor zones, their quizzes, and the menu and goal triggers.

use crate::commands::{views, Command, CommandView};
use crate::error::ConfigurationError;
use crate::system::{lemma_filter_next, CurrentLevel, GameState, GameStateMachine, QuizClear};
use bevy::ecs::entity::Entity;
use bevy_xpbd_2d::components::CollidingEntities;
use vstd::prelude::*;

verus! {

/// What a button of a menu does when it is pressed.
#[derive(Clone, Copy, Debug, PartialEq, Eq, Structural)]
pub enum MenuButtonAction {
    Play,
    Quit,
    BackToMenu,
}

/// An object of the level that ends the level for the player who touches it:
/// a goal, or a hazard.
#[derive(Clone, Copy, Debug, PartialEq, Eq, Structural)]
pub struct GroundObject {
    pub next_game_state: GameState,
}

/// Marks the prompt of an open quiz.
#[derive(Clone, Copy, Debug, PartialEq, Eq, Structural)]
pub struct QuizLabel;

/// The prompt of a quiz and the place on screen where it is shown.
#[derive(Debug)]
pub struct QuestionData {
    pub x: i32,
    pub y: i32,
    pub text: String,
}

/// A prompt as a value: its place and its text.
pub struct QuestionView {
    pub x: int,
    pub y: int,
    pub text: Seq<char>,
}

impl View for QuestionData {
    type V = QuestionView;

    open spec fn view(&self) -> QuestionView {
        QuestionView { x: self.x as int, y: self.y as int, text: self.text@ }
    }
}

impl Clone for QuestionData {
    fn clone(&self) -> (copy: QuestionData)
        ensures
            copy@ == self@,
    {
        QuestionData { x: self.x, y: self.y, text: self.text.clone() }
    }
}

/// One answer of a quiz: where its button is shown, what it says and whether
/// it is the right one.
#[derive(Debug)]
pub struct QuizButtonData {
    pub x: i32,
    pub y: i32,
    pub is_correct: bool,
    pub text: String,
}

/// An answer as a value: its place, its text and whether it is right.
pub struct AnswerView {
    pub x: int,
    pub y: int,
    pub is_correct: bool,
    pub text: Seq<char>,
}

impl View for QuizButtonData {
    type V = AnswerView;

    open spec fn view(&self) -> AnswerView {
        AnswerView {
            x: self.x as int,
            y: self.y as int,
            is_correct: self.is_correct,
            text: self.text@,
        }
    }
}

impl Clone for QuizButtonData {
    fn clone(&self) -> (copy: QuizButtonData)
        ensures
            copy@ == self@,
    {
        QuizButtonData {
            x: self.x,
            y: self.y,
            is_correct: self.is_correct,
            text: self.text.clone(),
        }
    }
}

/// A sensor zone that can put a quiz to a player who stands in it.
#[derive(Debug)]
pub struct Interactivity {
    pub can_interact: bool,
    pub is_interacting: bool,
    pub question: QuestionData,
    pub buttons: [QuizButtonData; 4],
    pub entity: Option<Entity>,
}

/// A zone as a value.
pub struct ZoneView {
    pub can_interact: bool,
    pub is_interacting: bool,
    pub question: QuestionView,
    pub buttons: Seq<AnswerView>,
    pub entity: Option<Entity>,
}

impl View for Interactivity {
    type V = ZoneView;

    open spec fn view(&self) -> ZoneView {
        ZoneView {
            can_interact: self.can_interact,
            is_interacting: self.is_interacting,
            question: self.question@,
            buttons: self.buttons@.map_values(|b: QuizButtonData| b@),
            entity: self.entity,
        }
    }
}

/// Where a zone stands in the course of its quiz.
#[derive(Clone, Copy, Debug, PartialEq, Eq, Structural)]
pub enum ZoneState {
    /// The zone does not react.
    Idle,
    /// The zone waits for a player to interact.
    Armed,
    /// The zone's quiz is open.
    QuizOpen,
}

impl ZoneView {
    /// Where the zone stands: its quiz is open, or it waits for a player, or
    /// it does not react.
    pub open spec fn state(self) -> ZoneState {
        if self.is_interacting {
            ZoneState::QuizOpen
        } else if self.can_interact {
            ZoneState::Armed
        } else {
            ZoneState::Idle
        }
    }
}

impl Interactivity {
    /// An armed zone with the question and the answers given, in their
    /// order, that removes `entity` when its quiz is answered right. Fails
    /// unless there are exactly four answers.
    pub fn new(question: QuestionData, answers: Vec<QuizButtonData>, entity: Option<Entity>) -> (made:
        Result<Interactivity, ConfigurationError>)
        ensures
            made is Ok <==> answers@.len() == 4,
            made matches Ok(zone) ==> zone@ == (ZoneView {
                can_interact: true,
                is_interacting: false,
                question: question@,
                buttons: views(answers@),
                entity,
            }),
            made matches Err(error) ==> error == ConfigurationError::AnswerCount,
    {
        if answers.len() != 4 {
            return Err(ConfigurationError::AnswerCount);
        }
        let mut answers = answers;
        let ghost given = answers@;
        let fourth = answers.pop().unwrap();
        let third = answers.pop().unwrap();
        let second = answers.pop().unwrap();
        let first = answers.pop().unwrap();
        let zone = Interactivity {
            can_interact: true,
            is_interacting: false,
            question,
            buttons: [first, second, third, fourth],
            entity,
        };
        assert(zone@.buttons =~= views(given));
        Ok(zone)
    }

    /// Where the zone stands in the course of its quiz.
    pub fn state(&self) -> (state: ZoneState)
        ensures
            state == self@.state(),
    {
        if self.is_interacting {
            ZoneState::QuizOpen
        } else if self.can_interact {
            ZoneState::Armed
        } else {
            ZoneState::Idle
        }
    }
}

impl Clone for Interactivity {
    fn clone(&self) -> (copy: Interactivity)
        ensures
            copy@ == self@,
    {
        let copy = Interactivity {
            can_interact: self.can_interact,
            is_interacting: self.is_interacting,
            question: self.question.clone(),
            buttons: [
                self.buttons[0].clone(),
                self.buttons[1].clone(),
                self.buttons[2].clone(),
                self.buttons[3].clone(),
            ],
            entity: self.entity,
        };
        assert(copy@.buttons =~= self@.buttons);
        copy
    }
}

/// One answer of an open quiz, as a button on screen. It keeps the zone as it
/// was when the quiz opened: what the zone becomes later does not reach it.
#[derive(Debug)]
pub struct QuizButton {
    pub is_correct: bool,
    pub entity: Option<Entity>,
    pub interactivity: Interactivity,
    pub player: Entity,
}

/// An answer button as a value.
pub struct QuizButtonView {
    pub is_correct: bool,
    pub entity: Option<Entity>,
    pub interactivity: ZoneView,
    pub player: Entity,
}

impl View for QuizButton {
    type V = QuizButtonView;

    open spec fn view(&self) -> QuizButtonView {
        QuizButtonView {
            is_correct: self.is_correct,
            entity: self.entity,
            interactivity: self.interactivity@,
            player: self.player,
        }
    }
}

impl Clone for QuizButton {
    fn clone(&self) -> (copy: QuizButton)
        ensures
            copy@ == self@,
    {
        QuizButton {
            is_correct: self.is_correct,
            entity: self.entity,
            interactivity: self.interactivity.clone(),
            player: self.player,
        }
    }
}

/// The physics' record of the objects that touch an object
/// (`bevy_xpbd_2d::components::CollidingEntities`): a set of handles. The
/// library hands it on and reads it through `first_colliding` alone.
#[verifier::external_type_specification]
#[verifier::external_body]
pub struct ExCollidingEntities(CollidingEntities);

/// The handles that a `CollidingEntities` holds.
pub uninterp spec fn colliding(entities: CollidingEntities) -> Set<Entity>;

/// Whether `picked` can come of asking `touching` for one of its objects:
/// one of them, or none if there is none.
pub open spec fn picked_from(picked: Option<Entity>, touching: Set<Entity>) -> bool {
    match picked {
        Some(object) => touching.contains(object),
        None => touching == Set::<Entity>::empty(),
    }
}

/// The object that the hash set of a `CollidingEntities` hands out first:
/// `HashSet::iter` and `Iterator::next` on its field.
///
/// Trusted: the result is one of the handles in the set, and there is none
/// only if the set is empty. Which of several handles comes first the set
/// does not say, and neither does this.
#[verifier::external_body]
fn first_colliding(entities: &CollidingEntities) -> (first: Option<Entity>)
    ensures
        picked_from(first, colliding(*entities)),
{
    entities.0.iter().next().copied()
}

impl ZoneView {
    /// Whether the zone reacts in this frame: it can be interacted with, a
    /// player overlaps it, and "interact" went down.
    pub open spec fn fires(self, interact_pressed: bool, player: Option<Entity>) -> bool {
        self.can_interact && player is Some && interact_pressed
    }

    /// Whether the zone closes its open quiz in this frame.
    pub open spec fn closes(self, interact_pressed: bool, player: Option<Entity>) -> bool {
        self.fires(interact_pressed, player) && self.is_interacting
    }

    /// The zone after the frame: a zone that fires opens its quiz, or closes
    /// the one that is open.
    pub open spec fn reacted(self, interact_pressed: bool, player: Option<Entity>) -> ZoneView {
        if self.fires(interact_pressed, player) {
            ZoneView { is_interacting: !self.is_interacting, ..self }
        } else {
            self
        }
    }

    /// The button for answer `i` of the quiz that the zone opens for
    /// `player`. It keeps the zone as it is once the quiz is open.
    pub open spec fn button(self, player: Entity, i: int) -> CommandView
        recommends
            0 <= i < self.buttons.len(),
    {
        CommandView::SpawnQuizButton {
            button: QuizButtonView {
                is_correct: self.buttons[i].is_correct,
                entity: self.entity,
                interactivity: ZoneView { is_interacting: true, ..self },
                player,
            },
            answer: self.buttons[i],
            tag: GameState::InGame,
        }
    }

    /// What the zone asks of the world in this frame. A zone that opens its
    /// quiz halts the player and shows the prompt and the four answers; one
    /// that closes it lets the player move again.
    pub open spec fn reaction(self, interact_pressed: bool, player: Option<Entity>) -> Seq<
        CommandView,
    > {
        match player {
            Some(player) => if !(self.can_interact && interact_pressed) {
                Seq::empty()
            } else if self.is_interacting {
                seq![CommandView::Release(player)]
            } else {
                seq![
                    CommandView::Immobilize(player),
                    CommandView::SpawnQuizLabel { question: self.question, tag: GameState::InGame },
                    self.button(player, 0),
                    self.button(player, 1),
                    self.button(player, 2),
                    self.button(player, 3),
                ]
            },
            None => Seq::empty(),
        }
    }

    /// The quiz signal after the frame: closing an open quiz raises it, with
    /// the flag that keeps the zones armed.
    pub open spec fn signal(
        self,
        interact_pressed: bool,
        player: Option<Entity>,
        before: Option<QuizClear>,
    ) -> Option<QuizClear> {
        if self.closes(interact_pressed, player) {
            Some(QuizClear(true))
        } else {
            before
        }
    }
}

impl Interactivity {
    /// Lets the zone react to a frame. `interact_pressed` says whether
    /// "interact" went down in it, `player` names the player who overlaps
    /// the zone, if one does. A zone that can be interacted with, with a
    /// player in it and "interact" down, opens its quiz for that player,
    /// with a prompt and four buttons that each keep the zone as it then is,
    /// or closes the quiz if it is open. Without a player nothing happens.
    pub fn react(
        &mut self,
        interact_pressed: bool,
        player: Option<Entity>,
        signal: &mut Option<QuizClear>,
    ) -> (commands: Vec<Command>)
        ensures
            final(self)@ == old(self)@.reacted(interact_pressed, player),
            views(commands@) == old(self)@.reaction(interact_pressed, player),
            *final(signal) == old(self)@.signal(interact_pressed, player, *old(signal)),
    {
        let mut commands: Vec<Command> = Vec::new();
        if !self.can_interact || !interact_pressed {
            return commands;
        }
        let player = match player {
            Some(player) => player,
            None => {
                return commands;
            },
        };
        if self.is_interacting {
            self.is_interacting = false;
            commands.push(Command::Release(player));
            *signal = Some(QuizClear(true));
        } else {
            self.is_interacting = true;
            commands.push(Command::Immobilize(player));
            commands.push(
                Command::SpawnQuizLabel { question: self.question.clone(), tag: GameState::InGame },
            );
            let ghost asked = old(self)@.reaction(interact_pressed, Some(player));
            let mut i: usize = 0;
            while i < 4
                invariant
                    i <= 4,
                    self@ == old(self)@.reacted(interact_pressed, Some(player)),
                    old(self)@.fires(interact_pressed, Some(player)),
                    !old(self)@.is_interacting,
                    asked == old(self)@.reaction(interact_pressed, Some(player)),
                    views(commands@) == asked.take(2 + i),
                decreases 4 - i,
            {
                let answer = self.buttons[i].clone();
                let ghost before = commands@;
                commands.push(
                    Command::SpawnQuizButton {
                        button: QuizButton {
                            is_correct: answer.is_correct,
                            entity: self.entity,
                            interactivity: self.clone(),
                            player,
                        },
                        answer,
                        tag: GameState::InGame,
                    },
                );
                assert(views(commands@) =~= views(before).push(old(self)@.button(player, i as int)));
                assert(asked.take(3 + i) =~= asked.take(2 + i).push(
                    old(self)@.button(player, i as int),
                ));
                i += 1;
            }
            assert(asked.take(6) =~= asked);
        }
        commands
    }
}

/// A zone together with what the frame's input and the physics say of it.
#[derive(Debug)]
pub struct SensorZone {
    /// Whether "interact" went down in this frame.
    pub interact_pressed: bool,
    pub interactivity: Interactivity,
    /// The objects that overlap the zone's sensor.
    pub overlapping: CollidingEntities,
}

/// A zone with its frame's input, as a value.
pub struct SensorZoneView {
    pub interact_pressed: bool,
    pub interactivity: ZoneView,
    pub overlapping: Set<Entity>,
}

impl View for SensorZone {
    type V = SensorZoneView;

    open spec fn view(&self) -> SensorZoneView {
        SensorZoneView {
            interact_pressed: self.interact_pressed,
            interactivity: self.interactivity@,
            overlapping: colliding(self.overlapping),
        }
    }
}

/// Whether `players` names, zone by zone, a player that the zone can deal
/// with: one of the objects that overlap it, or none if nothing does.
pub open spec fn players_of(zones: Seq<SensorZoneView>, players: Seq<Option<Entity>>) -> bool {
    &&& players.len() == zones.len()
    &&& forall|i: int|
        0 <= i < zones.len() ==> picked_from(#[trigger] players[i], zones[i].overlapping)
}

/// The zones after a frame in which each deals with its player of `players`.
pub open spec fn zones_reacted(zones: Seq<SensorZoneView>, players: Seq<Option<Entity>>) -> Seq<
    SensorZoneView,
> {
    Seq::new(
        zones.len(),
        |i: int|
            SensorZoneView {
                interactivity: zones[i].interactivity.reacted(zones[i].interact_pressed, players[i]),
                ..zones[i]
            },
    )
}

/// What the zones ask of the world in a frame in which each deals with its
/// player of `players`: each zone's commands, zone after zone.
pub open spec fn zone_reactions(zones: Seq<SensorZoneView>, players: Seq<Option<Entity>>) -> Seq<
    CommandView,
> {
    Seq::new(
        zones.len(),
        |i: int| zones[i].interactivity.reaction(zones[i].interact_pressed, players[i]),
    ).flatten()
}

/// The quiz signal after the zones' frame: raised if any zone closed its quiz.
pub open spec fn zones_signal(
    zones: Seq<SensorZoneView>,
    players: Seq<Option<Entity>>,
    before: Option<QuizClear>,
) -> Option<QuizClear> {
    if exists|i: int|
        0 <= i < zones.len() && (#[trigger] zones[i]).interactivity.closes(
            zones[i].interact_pressed,
            players[i],
        ) {
        Some(QuizClear(true))
    } else {
        before
    }
}

/// What a frame of the zones comes to with the players `players`: the zones
/// after it, what they ask of the world, and the quiz signal.
pub open spec fn interaction_outcome(
    zones: Seq<SensorZoneView>,
    players: Seq<Option<Entity>>,
    before: Option<QuizClear>,
) -> (Seq<SensorZoneView>, Seq<CommandView>, Option<QuizClear>) {
    (
        zones_reacted(zones, players),
        zone_reactions(zones, players),
        zones_signal(zones, players, before),
    )
}

/// Lets every zone react to this frame's input. Each zone deals with one of
/// the objects that overlap it, the first that the physics' set hands out,
/// and reacts as `Interactivity::react` says. A zone that nothing overlaps
/// does nothing.
pub fn update_player_interaction(zones: &mut Vec<SensorZone>, signal: &mut Option<QuizClear>) -> (commands:
    Vec<Command>)
    ensures
        exists|players: Seq<Option<Entity>>|
            #[trigger] players_of(views(old(zones)@), players) && interaction_outcome(
                views(old(zones)@),
                players,
                *old(signal),
            ) == (views(final(zones)@), views(commands@), *final(signal)),
{
    let mut commands: Vec<Command> = Vec::new();
    let ghost given = views(old(zones)@);
    let ghost mut players: Seq<Option<Entity>> = Seq::empty();
    let mut i: usize = 0;
    assert(zone_reactions(given.take(0), players) =~= Seq::empty());
    while i < zones.len()
        invariant
            i <= zones.len(),
            given == views(old(zones)@),
            zones@.len() == old(zones)@.len(),
            players_of(given.take(i as int), players),
            forall|j: int|
                0 <= j < i ==> (#[trigger] zones@[j])@ == zones_reacted(given.take(i as int), players)[j],
            forall|j: int| i <= j < zones@.len() ==> (#[trigger] zones@[j])@ == given[j],
            views(commands@) == zone_reactions(given.take(i as int), players),
            *signal == zones_signal(given.take(i as int), players, *old(signal)),
        decreases zones.len() - i,
    {
        let ghost done = given.take(i as int);
        let ghost zone = given[i as int];
        let ghost before = commands@;
        let ghost earlier = players;
        let player = first_colliding(&zones[i].overlapping);
        let pressed = zones[i].interact_pressed;
        let mut more = zones[i].interactivity.react(pressed, player, signal);
        commands.append(&mut more);
        proof {
            players = earlier.push(player);
            let next = given.take(i + 1);
            let each = |k: int| done[k].interactivity.reaction(done[k].interact_pressed, earlier[k]);
            let each_next = |k: int|
                next[k].interactivity.reaction(next[k].interact_pressed, players[k]);
            assert(next =~= done.push(zone));
            assert(Seq::new(next.len(), each_next) =~= Seq::new(done.len(), each).push(
                zone.interactivity.reaction(zone.interact_pressed, player),
            ));
            Seq::new(done.len(), each).lemma_flatten_push(
                zone.interactivity.reaction(zone.interact_pressed, player),
            );
            assert(views(commands@) =~= views(before) + zone.interactivity.reaction(
                zone.interact_pressed,
                player,
            ));
            if exists|k: int|
                0 <= k < done.len() && (#[trigger] done[k]).interactivity.closes(
                    done[k].interact_pressed,
                    earlier[k],
                ) {
                let k = choose|k: int|
                    0 <= k < done.len() && (#[trigger] done[k]).interactivity.closes(
                        done[k].interact_pressed,
                        earlier[k],
                    );
                assert(next[k].interactivity.closes(next[k].interact_pressed, players[k]));
            }
            if zone.interactivity.closes(zone.interact_pressed, player) {
                assert(next[i as int].interactivity.closes(
                    next[i as int].interact_pressed,
                    players[i as int],
                ));
            }
            if exists|k: int|
                0 <= k < next.len() && (#[trigger] next[k]).interactivity.closes(
                    next[k].interact_pressed,
                    players[k],
                ) {
                let k = choose|k: int|
                    0 <= k < next.len() && (#[trigger] next[k]).interactivity.closes(
                        next[k].interact_pressed,
                        players[k],
                    );
                if k < i {
                    assert(done[k].interactivity.closes(done[k].interact_pressed, earlier[k]));
                }
            }
        }
        i += 1;
    }
    proof {
        assert(given.take(i as int) =~= given);
        assert(views(zones@) =~= zones_reacted(given, players));
        assert(players_of(given, players));
    }
    commands
}

/// The state that a press of a menu button asks for, if it asks for one.
pub open spec fn menu_request(press: (bool, MenuButtonAction)) -> Option<GameState> {
    if !press.0 {
        None
    } else {
        match press.1 {
            MenuButtonAction::Play => Some(GameState::InGame),
            MenuButtonAction::BackToMenu => Some(GameState::MainMenu),
            MenuButtonAction::Quit => None,
        }
    }
}

/// The requests that the menu buttons make in one frame, in their order.
pub open spec fn menu_requests(presses: Seq<(bool, MenuButtonAction)>) -> Seq<GameState> {
    presses.filter_map(|press: (bool, MenuButtonAction)| menu_request(press))
}

/// The buttons that the menu of `state` shows, from the top: "play", except
/// when the game is complete, and below it "quit" on the main menu and
/// "back to menu" on every other screen.
pub open spec fn menu_of(state: GameState) -> Seq<MenuButtonAction> {
    let leave = if state == GameState::MainMenu {
        MenuButtonAction::Quit
    } else {
        MenuButtonAction::BackToMenu
    };
    if state == GameState::FullCompletion {
        seq![leave]
    } else {
        seq![MenuButtonAction::Play, leave]
    }
}

/// The buttons that the menu of `state` shows, from the top.
pub fn menu_buttons(state: GameState) -> (buttons: Vec<MenuButtonAction>)
    ensures
        buttons@ == menu_of(state),
{
    let mut buttons: Vec<MenuButtonAction> = Vec::new();
    if state != GameState::FullCompletion {
        buttons.push(MenuButtonAction::Play);
    }
    if state == GameState::MainMenu {
        buttons.push(MenuButtonAction::Quit);
    } else {
        buttons.push(MenuButtonAction::BackToMenu);
    }
    assert(buttons@ =~= menu_of(state));
    buttons
}

/// Whether a pressed button asks to leave the game.
pub open spec fn quit_pressed(presses: Seq<(bool, MenuButtonAction)>) -> bool {
    exists|i: int| 0 <= i < presses.len() && #[trigger] presses[i] == (true, MenuButtonAction::Quit)
}

/// Handles the menu buttons whose interaction changed in this frame; each
/// comes with whether it is pressed. "Play" asks for `InGame` and "back to
/// menu" for `MainMenu`; the last button pressed has its way. The level
/// counter is not touched. Returns whether "quit" was pressed.
pub fn interact_with_menu_button(
    presses: &Vec<(bool, MenuButtonAction)>,
    machine: &mut GameStateMachine,
) -> (quit: bool)
    ensures
        final(machine)@ == old(machine)@.request_all(menu_requests(presses@)),
        quit == quit_pressed(presses@),
{
    let mut quit = false;
    let mut i: usize = 0;
    assert(presses@.take(0) =~= Seq::empty());
    while i < presses.len()
        invariant
            i <= presses.len(),
            machine@ == old(machine)@.request_all(menu_requests(presses@.take(i as int))),
            quit == quit_pressed(presses@.take(i as int)),
        decreases presses.len() - i,
    {
        let ghost done = presses@.take(i as int);
        let ghost next = presses@.take(i + 1);
        proof {
            assert(next.drop_last() =~= done);
            assert(next.last() == presses@[i as int]);
            if quit {
                let k = choose|k: int| 0 <= k < done.len() && #[trigger] done[k] == (true, MenuButtonAction::Quit);
                assert(next[k] == (true, MenuButtonAction::Quit));
            }
            if quit_pressed(next) && !quit {
                let k = choose|k: int| 0 <= k < next.len() && #[trigger] next[k] == (true, MenuButtonAction::Quit);
                if k < i {
                    assert(done[k] == (true, MenuButtonAction::Quit));
                }
            }
        }
        let (pressed, action) = presses[i];
        if pressed {
            match action {
                MenuButtonAction::Quit => {
                    quit = true;
                    assert(next[i as int] == (true, MenuButtonAction::Quit));
                },
                MenuButtonAction::Play => {
                    machine.request_transition(GameState::InGame);
                    assert(menu_requests(next) =~= menu_requests(done).push(GameState::InGame));
                    assert(menu_requests(next).drop_last() =~= menu_requests(done));
                },
                MenuButtonAction::BackToMenu => {
                    machine.request_transition(GameState::MainMenu);
                    assert(menu_requests(next) =~= menu_requests(done).push(GameState::MainMenu));
                    assert(menu_requests(next).drop_last() =~= menu_requests(done));
                },
            }
        }
        i += 1;
    }
    assert(presses@.take(i as int) =~= presses@);
    quit
}

/// A goal or hazard together with the physics' record of what touches it.
pub type TouchedObject = (GroundObject, CollidingEntities);

/// Whether anything touches the object.
pub open spec fn reached(object: TouchedObject) -> bool {
    colliding(object.1) != Set::<Entity>::empty()
}

/// Whether the object is reached and leads on: every end but `GameOver`
/// counts the level as done.
pub open spec fn advances(object: TouchedObject) -> bool {
    reached(object) && object.0.next_game_state != GameState::GameOver
}

/// The requests that the touched objects make in one frame, in their order.
pub open spec fn goal_requests(objects: Seq<TouchedObject>) -> Seq<GameState> {
    objects.filter(|object: TouchedObject| reached(object)).map_values(
        |object: TouchedObject| object.0.next_game_state,
    )
}

/// By how much the touched objects raise the level counter in one frame.
pub open spec fn levels_gained(objects: Seq<TouchedObject>) -> nat {
    objects.filter(|object: TouchedObject| advances(object)).len()
}

/// A player has reached a goal or a hazard that leads to `next_state`: every
/// end but `GameOver` counts the level as done, and `next_state` is
/// requested. After a failure the same level is played again.
pub fn on_ground_goal_reached(
    level: &mut CurrentLevel,
    machine: &mut GameStateMachine,
    next_state: GameState,
)
    requires
        next_state != GameState::GameOver ==> old(level).0 < u8::MAX,
    ensures
        final(level).0 == old(level).0 + (if next_state != GameState::GameOver {
            1int
        } else {
            0int
        }),
        final(machine)@ == old(machine)@.request(next_state),
{
    if next_state != GameState::GameOver {
        level.0 = level.0 + 1;
    }
    machine.request_transition(next_state);
}

/// Handles the goals and hazards of the level; each comes with the physics'
/// record of what touches it in this frame. One that is touched ends the
/// level as `on_ground_goal_reached` says. The counter must have room for
/// the levels that are completed: `try_interact_with_gobject` sees to that.
pub fn interact_with_gobject(
    level: &mut CurrentLevel,
    objects: &Vec<TouchedObject>,
    machine: &mut GameStateMachine,
)
    requires
        old(level).0 + levels_gained(objects@) <= u8::MAX,
    ensures
        final(level).0 == old(level).0 + levels_gained(objects@),
        final(machine)@ == old(machine)@.request_all(goal_requests(objects@)),
{
    let ghost is_reached = |object: TouchedObject| reached(object);
    let ghost does_advance = |object: TouchedObject| advances(object);
    let mut i: usize = 0;
    proof {
        reveal(Seq::filter);
        assert(objects@.take(0) =~= Seq::empty());
    }
    while i < objects.len()
        invariant
            i <= objects.len(),
            is_reached == |object: TouchedObject| reached(object),
            does_advance == |object: TouchedObject| advances(object),
            old(level).0 + levels_gained(objects@) <= u8::MAX,
            level.0 == old(level).0 + levels_gained(objects@.take(i as int)),
            machine@ == old(machine)@.request_all(goal_requests(objects@.take(i as int))),
        decreases objects.len() - i,
    {
        let ghost done = objects@.take(i as int);
        let ghost next = objects@.take(i + 1);
        proof {
            lemma_filter_next(objects@, is_reached, i as int);
            lemma_filter_next(objects@, does_advance, i as int);
        }
        if first_colliding(&objects[i].1).is_some() {
            proof {
                let to = objects@[i as int].0.next_game_state;
                assert(goal_requests(next) =~= goal_requests(done).push(to));
                assert(goal_requests(next).drop_last() =~= goal_requests(done));
            }
            on_ground_goal_reached(level, machine, objects[i].0.next_game_state);
        }
        i += 1;
    }
    assert(objects@.take(i as int) =~= objects@);
}

/// Handles the goals and hazards of the level as `interact_with_gobject`
/// does, if the counter has room for the levels that are completed. If it
/// has not, nothing is changed. Returns whether it had.
pub fn try_interact_with_gobject(
    level: &mut CurrentLevel,
    objects: &Vec<TouchedObject>,
    machine: &mut GameStateMachine,
) -> (done: bool)
    ensures
        done == (old(level).0 + levels_gained(objects@) <= u8::MAX),
        done ==> final(level).0 == old(level).0 + levels_gained(objects@),
        done ==> final(machine)@ == old(machine)@.request_all(goal_requests(objects@)),
        !done ==> *final(level) == *old(level) && *final(machine) == *old(machine),
{
    let ghost does_advance = |object: TouchedObject| advances(object);
    let mut gained: usize = 0;
    let mut i: usize = 0;
    proof {
        reveal(Seq::filter);
        assert(objects@.take(0) =~= Seq::empty());
    }
    while i < objects.len()
        invariant
            i <= objects.len(),
            does_advance == |object: TouchedObject| advances(object),
            gained == levels_gained(objects@.take(i as int)),
            gained <= i,
        decreases objects.len() - i,
    {
        proof {
            lemma_filter_next(objects@, does_advance, i as int);
        }
        if objects[i].0.next_game_state != GameState::GameOver && first_colliding(
            &objects[i].1,
        ).is_some() {
            gained += 1;
        }
        i += 1;
    }
    assert(objects@.take(i as int) =~= objects@);
    if gained <= (u8::MAX - level.0) as usize {
        interact_with_gobject(level, objects, machine);
        true
    } else {
        false
    }
}

/// What a press of an answer button asks of the world: the right answer
/// removes what blocks the way, if the zone names such an object, and lets
/// the player move again.
pub open spec fn answer_commands(press: (bool, QuizButtonView)) -> Seq<CommandView> {
    if press.0 && press.1.is_correct {
        match press.1.entity {
            Some(blocker) => seq![
                CommandView::Despawn(blocker),
                CommandView::Release(press.1.player),
            ],
            None => seq![CommandView::Release(press.1.player)],
        }
    } else {
        Seq::empty()
    }
}

/// Whether one of the answer buttons is pressed.
pub open spec fn answered(presses: Seq<(bool, QuizButtonView)>) -> bool {
    exists|i: int| 0 <= i < presses.len() && (#[trigger] presses[i]).0
}

/// Whether the button of a wrong answer is pressed.
pub open spec fn answered_wrongly(presses: Seq<(bool, QuizButtonView)>) -> bool {
    exists|i: int| 0 <= i < presses.len() && (#[trigger] presses[i]).0 && !presses[i].1.is_correct
}

/// Handles the answer buttons whose interaction changed in this frame; each
/// comes with whether it is pressed. A right answer opens the way and frees
/// the player; a wrong one ends the run. Either raises the quiz signal, with
/// the flag that sends the zones idle.
pub fn interact_with_quiz_button(
    presses: &Vec<(bool, QuizButton)>,
    machine: &mut GameStateMachine,
    signal: &mut Option<QuizClear>,
) -> (commands: Vec<Command>)
    ensures
        views(commands@) == views(presses@).map_values(
            |press: (bool, QuizButtonView)| answer_commands(press),
        ).flatten(),
        final(machine)@ == (if answered_wrongly(views(presses@)) {
            old(machine)@.request(GameState::GameOver)
        } else {
            old(machine)@
        }),
        *final(signal) == (if answered(views(presses@)) {
            Some(QuizClear(false))
        } else {
            *old(signal)
        }),
{
    let mut commands: Vec<Command> = Vec::new();
    let ghost each = |press: (bool, QuizButtonView)| answer_commands(press);
    let mut i: usize = 0;
    assert(views(presses@).take(0) =~= Seq::empty());
    while i < presses.len()
        invariant
            i <= presses.len(),
            each == |press: (bool, QuizButtonView)| answer_commands(press),
            views(commands@) == views(presses@).take(i as int).map_values(each).flatten(),
            machine@ == if answered_wrongly(views(presses@).take(i as int)) {
                old(machine)@.request(GameState::GameOver)
            } else {
                old(machine)@
            },
            *signal == if answered(views(presses@).take(i as int)) {
                Some(QuizClear(false))
            } else {
                *old(signal)
            },
        decreases presses.len() - i,
    {
        let ghost done = views(presses@).take(i as int);
        let ghost next = views(presses@).take(i + 1);
        let ghost press = presses@[i as int]@;
        let ghost before = commands@;
        proof {
            assert(next =~= done.push(press));
            assert(next.map_values(each) =~= done.map_values(each).push(each(press)));
            done.map_values(each).lemma_flatten_push(each(press));
            if answered(done) {
                let k = choose|k: int| 0 <= k < done.len() && (#[trigger] done[k]).0;
                assert(next[k].0);
            }
            if answered_wrongly(done) {
                let k = choose|k: int|
                    0 <= k < done.len() && (#[trigger] done[k]).0 && !done[k].1.is_correct;
                assert(next[k].0 && !next[k].1.is_correct);
            }
            if answered(next) && !press.0 {
                let k = choose|k: int| 0 <= k < next.len() && (#[trigger] next[k]).0;
                assert(done[k].0);
            }
            if answered_wrongly(next) && !(press.0 && !press.1.is_correct) {
                let k = choose|k: int|
                    0 <= k < next.len() && (#[trigger] next[k]).0 && !next[k].1.is_correct;
                assert(done[k].0 && !done[k].1.is_correct);
            }
        }
        if presses[i].0 {
            assert(next[i as int].0);
            if presses[i].1.is_correct {
                if let Some(blocker) = presses[i].1.entity {
                    commands.push(Command::Despawn(blocker));
                }
                commands.push(Command::Release(presses[i].1.player));
            } else {
                machine.request_transition(GameState::GameOver);
            }
            *signal = Some(QuizClear(false));
        }
        assert(views(commands@) =~= views(before) + each(press));
        i += 1;
    }
    assert(views(presses@).take(i as int) =~= views(presses@));
    commands
}

/// Removes the buttons and prompts of the quizzes on screen and lowers the
/// quiz signal.
pub fn clear_quiz_buttons(quiz_objects: &Vec<Entity>, signal: &mut Option<QuizClear>) -> (commands:
    Vec<Command>)
    ensures
        views(commands@) == quiz_objects@.map_values(|object: Entity| CommandView::Despawn(object)),
        *final(signal) == None::<QuizClear>,
{
    let mut commands: Vec<Command> = Vec::new();
    let mut i: usize = 0;
    while i < quiz_objects.len()
        invariant
            i <= quiz_objects.len(),
            views(commands@) == quiz_objects@.take(i as int).map_values(
                |object: Entity| CommandView::Despawn(object),
            ),
        decreases quiz_objects.len() - i,
    {
        let ghost before = commands@;
        commands.push(Command::Despawn(quiz_objects[i]));
        assert(views(commands@) =~= views(before).push(CommandView::Despawn(quiz_objects@[i as int])));
        assert(quiz_objects@.take(i + 1) =~= quiz_objects@.take(i as int).push(quiz_objects@[i as int]));
        i += 1;
    }
    assert(quiz_objects@.take(i as int) =~= quiz_objects@);
    *signal = None;
    commands
}

impl ZoneView {
    /// The zone after a quiz was closed: no quiz is open, and the signal's
    /// flag says whether the zone is armed or idle.
    pub open spec fn closed(self, clear: QuizClear) -> ZoneView {
        ZoneView { can_interact: clear.0, is_interacting: false, ..self }
    }
}

/// After the sweep that follows an answer every zone is idle, whatever it
/// was; after the one that follows a dismissed quiz every zone is armed.
pub proof fn closed_zone_is_idle_or_armed(zone: ZoneView)
    ensures
        zone.closed(QuizClear(false)).state() == ZoneState::Idle,
        zone.closed(QuizClear(true)).state() == ZoneState::Armed,
{
}

/// Closes every zone when a quiz was closed: none has a quiz open any more,
/// and all are armed or idle as the signal's flag says.
pub fn make_uninteractable(clear: &QuizClear, zones: &mut Vec<Interactivity>)
    ensures
        views(final(zones)@) == views(old(zones)@).map_values(|zone: ZoneView| zone.closed(*clear)),
{
    let mut i: usize = 0;
    while i < zones.len()
        invariant
            i <= zones.len(),
            zones@.len() == old(zones)@.len(),
            forall|j: int| 0 <= j < i ==> (#[trigger] zones@[j])@ == old(zones)@[j]@.closed(*clear),
            forall|j: int| i <= j < zones@.len() ==> (#[trigger] zones@[j])@ == old(zones)@[j]@,
        decreases zones.len() - i,
    {
        zones[i].can_interact = clear.0;
        zones[i].is_interacting = false;
        i += 1;
    }
    assert(views(zones@) =~= views(old(zones)@).map_values(|zone: ZoneView| zone.closed(*clear)));
}

/// The sweep that follows a closed quiz. If the signal is up, every zone is
/// closed as its flag says, every button and prompt on screen is removed,
/// and the signal is lowered. If it is not, nothing happens.
pub fn consume_quiz_signal(
    signal: &mut Option<QuizClear>,
    zones: &mut Vec<Interactivity>,
    quiz_objects: &Vec<Entity>,
) -> (commands: Vec<Command>)
    ensures
        *final(signal) == None::<QuizClear>,
        *old(signal) matches Some(clear) ==> views(final(zones)@) == views(old(zones)@).map_values(
            |zone: ZoneView| zone.closed(clear),
        ),
        *old(signal) is Some ==> views(commands@) == quiz_objects@.map_values(
            |object: Entity| CommandView::Despawn(object),
        ),
        *old(signal) is None ==> final(zones)@ == old(zones)@,
        *old(signal) is None ==> commands@ == Seq::<Command>::empty(),
{
    match *signal {
        Some(clear) => {
            make_uninteractable(&clear, zones);
            clear_quiz_buttons(quiz_objects, signal)
        },
        None => Vec::new(),
    }
}

} // verus!
