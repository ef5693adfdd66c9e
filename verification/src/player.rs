//! The player: what the input asks of its motion, and the clip that shows it.

use crate::animations::{AnimatableLayer, LayerView};
use vstd::prelude::*;

verus! {

/// Marks the object that the player steers.
#[derive(Clone, Copy, Debug, PartialEq, Eq, Structural)]
pub struct Player;

/// Marks a player who answers a quiz and does not move meanwhile.
#[derive(Clone, Copy, Debug, PartialEq, Eq, Structural)]
pub struct Immobile;

/// What the player can ask for by the keys.
#[derive(Clone, Copy, Debug, PartialEq, Eq, Hash, Structural)]
pub enum PlayerAction {
    Left,
    Right,
    Jump,
    Interact,
}

/// The kinds of bodies that the physics tells apart.
#[derive(Clone, Copy, Debug, PartialEq, Eq, Hash, Structural)]
pub enum Layer {
    Player,
    Enemy,
    Ground,
    Interactable,
}

/// The clip of a player who stands.
pub const IDLE_CLIP: usize = 0;

/// The clip of a player who answers a quiz.
pub const QUIZ_CLIP: usize = 1;

/// The clip of a player who runs or falls.
pub const RUN_CLIP: usize = 3;

/// The clip of a player who jumps off.
pub const JUMP_CLIP: usize = 4;

/// What one frame says of the player.
#[derive(Clone, Copy, Debug, PartialEq, Eq, Structural)]
pub struct MovementInput {
    /// Whether the player is marked `Immobile`.
    pub immobile: bool,
    /// Whether "jump" went down in this frame.
    pub jump_pressed: bool,
    /// Whether the player stands on ground.
    pub grounded: bool,
    /// Whether "left" is held.
    pub left: bool,
    /// Whether "right" is held.
    pub right: bool,
}

/// A side to which the player is pushed.
#[derive(Clone, Copy, Debug, PartialEq, Eq, Structural)]
pub enum Side {
    Left,
    Right,
}

/// What a frame's input does to the player's velocity.
#[derive(Clone, Copy, Debug, PartialEq, Eq, Structural)]
pub struct Impulse {
    /// The player stops moving sideways.
    pub halt: bool,
    /// The player jumps off.
    pub jump: bool,
    /// The player is pushed to a side.
    pub push: Option<Side>,
}

impl MovementInput {
    /// Whether the player jumps off in this frame: one who can move, stands
    /// on ground and has pressed "jump".
    pub open spec fn jumps(self) -> bool {
        !self.immobile && self.jump_pressed && self.grounded
    }

    /// What the input does to the velocity. An immobile player is halted and
    /// nothing else. Another jumps if "jump" went down while on ground, and
    /// is pushed to the side that is held, to the left if both are.
    pub open spec fn impulse(self) -> Impulse {
        if self.immobile {
            Impulse { halt: true, jump: false, push: None }
        } else {
            Impulse {
                halt: false,
                jump: self.jumps(),
                push: if self.left {
                    Some(Side::Left)
                } else if self.right {
                    Some(Side::Right)
                } else {
                    None
                },
            }
        }
    }

    /// The clip that the input asks for, if it asks for one: the quiz clip
    /// for an immobile player, the jump clip on jumping off, and on ground
    /// the idle clip for a player at rest and the run clip for one who moves.
    /// In the air the clip stays.
    pub open spec fn clip(self, at_rest: bool) -> Option<usize> {
        if self.immobile {
            Some(QUIZ_CLIP)
        } else if self.jumps() {
            Some(JUMP_CLIP)
        } else if self.grounded {
            Some(if at_rest { IDLE_CLIP } else { RUN_CLIP })
        } else {
            None
        }
    }

    /// The layer of the player after the frame's input. The clip asked for
    /// is taken if the layer has it; a player who can move faces the side
    /// pushed to and plays clips over and over, an immobile one plays the
    /// quiz clip once.
    pub open spec fn animate(self, at_rest: bool, layer: LayerView) -> LayerView {
        let asked = match self.clip(at_rest) {
            Some(clip) => layer.asked_for(clip),
            None => layer,
        };
        LayerView {
            next_animation: asked.next_animation,
            flip_x: if !self.immobile && (self.left || self.right) {
                self.left
            } else {
                layer.flip_x
            },
            repeat: !self.immobile,
            ..layer
        }
    }
}

/// What the frame's input does to the player's velocity.
pub fn movement_impulse(input: &MovementInput) -> (impulse: Impulse)
    ensures
        impulse == input.impulse(),
{
    if input.immobile {
        Impulse { halt: true, jump: false, push: None }
    } else {
        let push = if input.left {
            Some(Side::Left)
        } else if input.right {
            Some(Side::Right)
        } else {
            None
        };
        Impulse { halt: false, jump: input.jump_pressed && input.grounded, push }
    }
}

/// Lets the player's animation follow the frame's input. `at_rest` says
/// whether the player, with the frame's impulse applied, hardly moves.
pub fn update_player_movement(input: &MovementInput, at_rest: bool, layer: &mut AnimatableLayer)
    ensures
        final(layer)@ == input.animate(at_rest, old(layer)@),
{
    if input.immobile {
        layer.request_animation(QUIZ_CLIP);
        layer.set_repeat(false);
    } else {
        let jumps = input.jump_pressed && input.grounded;
        if jumps {
            layer.request_animation(JUMP_CLIP);
        }
        if input.left || input.right {
            layer.set_flip_x(input.left);
        }
        if !jumps && input.grounded {
            layer.request_animation(if at_rest { IDLE_CLIP } else { RUN_CLIP });
        }
        layer.set_repeat(true);
    }
}

} // verus!
