//! What the library asks the engine to do to its world.

use crate::interactable::{
    AnswerView, QuestionData, QuestionView, QuizButton, QuizButtonData, QuizButtonView,
};
use crate::system::GameState;
use bevy::ecs::entity::Entity;
use vstd::prelude::*;

verus! {

/// A change to the engine's world that the caller carries out, in the order
/// in which the library lists them.
#[derive(Debug)]
pub enum Command {
    /// Make the player ignore movement input.
    Immobilize(Entity),
    /// Let the player move again.
    Release(Entity),
    /// Show the prompt of a quiz, as an object of the state `tag`.
    SpawnQuizLabel { question: QuestionData, tag: GameState },
    /// Show one answer of a quiz as a button, as an object of the state `tag`.
    SpawnQuizButton { button: QuizButton, answer: QuizButtonData, tag: GameState },
    /// Destroy the object and all that it owns.
    Despawn(Entity),
}

/// A command as a value.
pub enum CommandView {
    Immobilize(Entity),
    Release(Entity),
    SpawnQuizLabel { question: QuestionView, tag: GameState },
    SpawnQuizButton { button: QuizButtonView, answer: AnswerView, tag: GameState },
    Despawn(Entity),
}

impl View for Command {
    type V = CommandView;

    open spec fn view(&self) -> CommandView {
        match self {
            Command::Immobilize(player) => CommandView::Immobilize(*player),
            Command::Release(player) => CommandView::Release(*player),
            Command::SpawnQuizLabel { question, tag } => CommandView::SpawnQuizLabel {
                question: question@,
                tag: *tag,
            },
            Command::SpawnQuizButton { button, answer, tag } => CommandView::SpawnQuizButton {
                button: button@,
                answer: answer@,
                tag: *tag,
            },
            Command::Despawn(object) => CommandView::Despawn(*object),
        }
    }
}

/// The views of the items of `items`, in their order.
pub open spec fn views<T: View>(items: Seq<T>) -> Seq<T::V> {
    items.map_values(|item: T| item@)
}

} // verus!
