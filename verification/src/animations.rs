//! Sprite animation: a timer per object, clips of frames, and the step from
//! one frame to the next.

use crate::commands::views;
use crate::error::ConfigurationError;
use bevy::time::{Timer, TimerMode};
use std::time::Duration;
use vstd::arithmetic::div_mod::{
    lemma_add_mod_noop, lemma_basic_div, lemma_fundamental_div_mod, lemma_mod_add_multiples_vanish,
    lemma_mod_bound, lemma_mod_self_0, lemma_small_mod,
};
use vstd::prelude::*;

verus! {

/// How often a repeating timer of period `period` that has run for `elapsed`
/// expires when `delta` more passes, all in nanoseconds, as the engine's
/// timer counts it: in 32 bits, so that a count of 2^32 reads as 0. A timer
/// of period 0 expires on every tick.
pub open spec fn timer_expiries(period: u64, elapsed: u64, delta: u64) -> nat {
    if period == 0 {
        0xFFFF_FFFF
    } else {
        (((elapsed + delta) / (period as int)) % 0x1_0000_0000) as nat
    }
}

/// For how long the timer has run in its current period after the tick.
pub open spec fn timer_remainder(period: u64, elapsed: u64, delta: u64) -> nat {
    if period == 0 {
        0
    } else {
        ((elapsed + delta) % (period as int)) as nat
    }
}

/// One `tick` of the engine's timer: `bevy::time::Timer::tick`, on a timer
/// made by `Timer::new` in `TimerMode::Repeating` with the period given, and
/// set to the elapsed time given by `Timer::set_elapsed`. Returns
/// `Timer::elapsed` and `Timer::just_finished` after the tick.
///
/// Trusted: the timer adds `delta` to the elapsed time; if the sum reaches
/// the period, it keeps the remainder of the division by the period and
/// counts the quotient, cut to 32 bits, as the expiries of this tick; it has
/// just finished if that count is not 0. With period 0 the remainder is 0 and
/// the count is `u32::MAX`.
#[verifier::external_body]
fn tick_repeating(period_nanos: u64, elapsed_nanos: u64, delta_nanos: u64) -> (ticked: (u64, bool))
    ensures
        ticked.0 == timer_remainder(period_nanos, elapsed_nanos, delta_nanos),
        ticked.1 == (timer_expiries(period_nanos, elapsed_nanos, delta_nanos) > 0),
{
    let mut timer = Timer::new(Duration::from_nanos(period_nanos), TimerMode::Repeating);
    timer.set_elapsed(Duration::from_nanos(elapsed_nanos));
    timer.tick(Duration::from_nanos(delta_nanos));
    (timer.elapsed().as_nanos() as u64, timer.just_finished())
}

/// A timer that expires every `period_nanos` nanoseconds, over and over.
#[derive(Clone, Copy, Debug, PartialEq, Eq, Structural)]
pub struct RepeatingTimer {
    pub period_nanos: u64,
    pub elapsed_nanos: u64,
}

impl RepeatingTimer {
    /// The timer after `delta_nanos` more have passed.
    pub open spec fn ticked(self, delta_nanos: u64) -> RepeatingTimer {
        RepeatingTimer {
            period_nanos: self.period_nanos,
            elapsed_nanos: timer_remainder(self.period_nanos, self.elapsed_nanos, delta_nanos) as u64,
        }
    }

    /// Whether the timer expires when `delta_nanos` more pass.
    pub open spec fn expires(self, delta_nanos: u64) -> bool {
        timer_expiries(self.period_nanos, self.elapsed_nanos, delta_nanos) > 0
    }

    /// A timer of the period given that has not run yet.
    pub fn new(period_nanos: u64) -> (timer: RepeatingTimer)
        ensures
            timer == (RepeatingTimer { period_nanos, elapsed_nanos: 0 }),
    {
        RepeatingTimer { period_nanos, elapsed_nanos: 0 }
    }

    /// Lets `delta_nanos` pass. Returns whether the timer expired.
    pub fn tick(&mut self, delta_nanos: u64) -> (expired: bool)
        ensures
            *final(self) == old(self).ticked(delta_nanos),
            expired == old(self).expires(delta_nanos),
    {
        let (elapsed, expired) = tick_repeating(self.period_nanos, self.elapsed_nanos, delta_nanos);
        self.elapsed_nanos = elapsed;
        expired
    }
}

/// A timer with a period runs on until the period is reached and then starts
/// over: a tick that stays short of the period does not expire, one that
/// reaches it but not twice expires and keeps what goes beyond, and after any
/// tick less than a period has elapsed.
pub proof fn timer_expires_when_the_period_is_reached(timer: RepeatingTimer, delta_nanos: u64)
    requires
        timer.period_nanos > 0,
    ensures
        timer.ticked(delta_nanos).elapsed_nanos < timer.period_nanos,
        timer.elapsed_nanos + delta_nanos < timer.period_nanos ==> !timer.expires(delta_nanos)
            && timer.ticked(delta_nanos).elapsed_nanos == timer.elapsed_nanos + delta_nanos,
        timer.period_nanos <= timer.elapsed_nanos + delta_nanos < 2 * timer.period_nanos
            ==> timer.expires(delta_nanos) && timer.ticked(delta_nanos).elapsed_nanos
            == timer.elapsed_nanos + delta_nanos - timer.period_nanos,
{
    let period = timer.period_nanos as int;
    let total = timer.elapsed_nanos + delta_nanos;
    lemma_mod_bound(total, period);
    lemma_fundamental_div_mod(total, period);
    if total < period {
        lemma_small_mod(total as nat, period as nat);
        lemma_basic_div(total, period);
    } else if total < 2 * period {
        lemma_mod_add_multiples_vanish(total - period, period);
        lemma_small_mod((total - period) as nat, period as nat);
        assert(total / period == 1) by (nonlinear_arith)
            requires
                period * (total / period) == period,
                period > 0,
        ;
    }
}

/// What is drawn of an animated object: the frame of its sprite sheet, and
/// whether it is mirrored.
#[derive(Clone, Copy, Debug, PartialEq, Eq, Structural)]
pub struct SpriteFrame {
    pub index: usize,
    pub flip_x: bool,
}

/// The clip that plays and the frame that it shows.
#[derive(Clone, Copy, Debug, PartialEq, Eq, Structural)]
struct Playhead {
    clip: usize,
    frame: usize,
}

/// The animation of one object: its clips, each a range of frames from a
/// first frame up to, and without, an end; the clip that plays and the one
/// that is asked for; and what is drawn.
#[derive(Debug)]
pub struct AnimatableLayer {
    timer: RepeatingTimer,
    animations: Vec<(usize, usize)>,
    playhead: Playhead,
    next_animation: usize,
    flip_x: bool,
    repeat: bool,
    mirrored: bool,
}

/// A layer as a value.
pub struct LayerView {
    pub timer: RepeatingTimer,
    pub animations: Seq<(usize, usize)>,
    pub current_animation: usize,
    pub next_animation: usize,
    pub flip_x: bool,
    pub repeat: bool,
    pub sprite: SpriteFrame,
}

/// Whether every clip ends after its start.
pub open spec fn clips_well_formed(animations: Seq<(usize, usize)>) -> bool {
    forall|i: int| 0 <= i < animations.len() ==> (#[trigger] animations[i]).0 < animations[i].1
}

impl LayerView {
    /// What holds of every layer: the clips are well formed, the clip that
    /// plays and the one asked for are clips of the list, and the frame
    /// drawn is a frame of the clip that plays.
    pub open spec fn well_formed(self) -> bool {
        &&& clips_well_formed(self.animations)
        &&& self.current_animation < self.animations.len()
        &&& self.next_animation < self.animations.len()
        &&& self.clip().0 <= self.sprite.index < self.clip().1
    }

    /// The clip that plays.
    pub open spec fn clip(self) -> (usize, usize) {
        self.animations[self.current_animation as int]
    }

    /// The layer after one expiry of its timer. If another clip is asked
    /// for, it starts. If not, the next frame is shown; after the last frame
    /// a clip that repeats starts over, and one that does not stays there.
    pub open spec fn advance(self) -> LayerView {
        if self.next_animation != self.current_animation {
            LayerView {
                current_animation: self.next_animation,
                sprite: SpriteFrame {
                    index: self.animations[self.next_animation as int].0,
                    flip_x: self.sprite.flip_x,
                },
                ..self
            }
        } else if self.sprite.index + 1 < self.clip().1 {
            LayerView {
                sprite: SpriteFrame {
                    index: (self.sprite.index + 1) as usize,
                    flip_x: self.sprite.flip_x,
                },
                ..self
            }
        } else if self.repeat {
            LayerView {
                sprite: SpriteFrame { index: self.clip().0, flip_x: self.sprite.flip_x },
                ..self
            }
        } else {
            LayerView {
                sprite: SpriteFrame {
                    index: (self.clip().1 - 1) as usize,
                    flip_x: self.sprite.flip_x,
                },
                ..self
            }
        }
    }

    /// The layer after a frame of `delta_nanos`: the sprite is mirrored as
    /// asked for, whether the timer expires or not, and if the timer expires
    /// the animation advances, once.
    pub open spec fn tick(self, delta_nanos: u64) -> LayerView {
        let shown = LayerView {
            timer: self.timer.ticked(delta_nanos),
            sprite: SpriteFrame { index: self.sprite.index, flip_x: self.flip_x },
            ..self
        };
        if self.timer.expires(delta_nanos) {
            shown.advance()
        } else {
            shown
        }
    }
}

impl LayerView {
    /// The layer after `expiries` expiries of its timer.
    pub open spec fn advance_by(self, expiries: nat) -> LayerView
        decreases expiries,
    {
        if expiries == 0 {
            self
        } else {
            self.advance_by((expiries - 1) as nat).advance()
        }
    }

    /// The layer with the frame `index` drawn, and all else as it is.
    pub open spec fn showing(self, index: int) -> LayerView {
        LayerView { sprite: SpriteFrame { index: index as usize, flip_x: self.sprite.flip_x }, ..self }
    }

    /// The layer after the clip `clip` was asked for: an index that names no
    /// clip changes nothing.
    pub open spec fn asked_for(self, clip: usize) -> LayerView {
        if clip < self.animations.len() {
            LayerView { next_animation: clip, ..self }
        } else {
            self
        }
    }

    /// Whether the layer goes on with the clip that plays.
    pub open spec fn steady(self) -> bool {
        self.next_animation == self.current_animation
    }
}

/// An expiry of the timer leaves a layer well formed.
pub proof fn advance_keeps_well_formed(layer: LayerView)
    requires
        layer.well_formed(),
    ensures
        layer.advance().well_formed(),
{
}

/// A frame leaves a layer well formed.
pub proof fn tick_keeps_well_formed(layer: LayerView, delta_nanos: u64)
    requires
        layer.well_formed(),
    ensures
        layer.tick(delta_nanos).well_formed(),
{
}

/// The clip that is asked for plays from its first frame after one expiry.
pub proof fn requested_clip_starts_at_the_next_expiry(layer: LayerView)
    requires
        layer.well_formed(),
        !layer.steady(),
    ensures
        layer.advance().current_animation == layer.next_animation,
        layer.advance().steady(),
        layer.advance().sprite.index == layer.animations[layer.next_animation as int].0,
{
}

/// A clip that repeats goes round: after `expiries` expiries it shows the
/// frame that lies that many frames on, counted round the clip. After as
/// many expiries as the clip has frames the layer is as it was.
pub proof fn repeating_clip_goes_round(layer: LayerView, expiries: nat)
    requires
        layer.well_formed(),
        layer.steady(),
        layer.repeat,
    ensures
        layer.advance_by(expiries) == layer.showing(
            layer.clip().0 + (layer.sprite.index - layer.clip().0 + expiries) % (layer.clip().1
                - layer.clip().0),
        ),
        expiries == layer.clip().1 - layer.clip().0 ==> layer.advance_by(expiries) == layer,
    decreases expiries,
{
    let first = layer.clip().0 as int;
    let frames = layer.clip().1 - layer.clip().0;
    let offset = layer.sprite.index - first;
    if expiries == 0 {
        lemma_small_mod(offset as nat, frames as nat);
    } else {
        let before = (expiries - 1) as nat;
        repeating_clip_goes_round(layer, before);
        let at = (offset + before) % frames;
        lemma_add_mod_noop(offset + before, 1, frames);
        if at + 1 < frames {
            lemma_small_mod(1, frames as nat);
            lemma_small_mod((at + 1) as nat, frames as nat);
        } else if frames == 1 {
            lemma_mod_self_0(1);
        } else {
            lemma_small_mod(1, frames as nat);
            lemma_mod_self_0(frames);
        }
        assert(offset + before + 1 == offset + expiries);
    }
    if expiries == frames {
        lemma_mod_add_multiples_vanish(offset, frames);
        lemma_small_mod(offset as nat, frames as nat);
    }
}

/// A clip that does not repeat runs to its last frame and stays there: after
/// `expiries` expiries it shows the frame that lies that many frames on, or
/// the last frame of the clip if that comes first.
pub proof fn one_shot_clip_holds_its_last_frame(layer: LayerView, expiries: nat)
    requires
        layer.well_formed(),
        layer.steady(),
        !layer.repeat,
    ensures
        layer.advance_by(expiries) == layer.showing(
            if layer.sprite.index + expiries < layer.clip().1 {
                layer.sprite.index + expiries
            } else {
                layer.clip().1 - 1
            },
        ),
    decreases expiries,
{
    if expiries > 0 {
        one_shot_clip_holds_its_last_frame(layer, (expiries - 1) as nat);
    }
}

impl View for AnimatableLayer {
    type V = LayerView;

    closed spec fn view(&self) -> LayerView {
        LayerView {
            timer: self.timer,
            animations: self.animations@,
            current_animation: self.playhead.clip,
            next_animation: self.next_animation,
            flip_x: self.flip_x,
            repeat: self.repeat,
            sprite: SpriteFrame { index: self.playhead.frame, flip_x: self.mirrored },
        }
    }
}

impl AnimatableLayer {
    #[verifier::type_invariant]
    spec fn holds(self) -> bool {
        self@.well_formed()
    }

    /// A layer that plays the clip `current_animation` from its first frame.
    /// Fails if a clip does not end after its start, or else if one of the
    /// two indices names no clip.
    pub fn new(
        timer: RepeatingTimer,
        animations: Vec<(usize, usize)>,
        current_animation: usize,
        next_animation: usize,
        flip_x: bool,
        repeat: bool,
    ) -> (made: Result<AnimatableLayer, ConfigurationError>)
        ensures
            made is Ok <==> clips_well_formed(animations@) && current_animation < animations@.len()
                && next_animation < animations@.len(),
            made matches Ok(layer) ==> layer@ == (LayerView {
                timer,
                animations: animations@,
                current_animation,
                next_animation,
                flip_x,
                repeat,
                sprite: SpriteFrame { index: animations@[current_animation as int].0, flip_x },
            }),
            made matches Err(error) ==> error == (if clips_well_formed(animations@) {
                ConfigurationError::UnknownClip
            } else {
                ConfigurationError::MalformedClip
            }),
    {
        let mut i: usize = 0;
        while i < animations.len()
            invariant
                i <= animations.len(),
                clips_well_formed(animations@.take(i as int)),
            decreases animations.len() - i,
        {
            if animations[i].1 <= animations[i].0 {
                return Err(ConfigurationError::MalformedClip);
            }
            assert forall|k: int| 0 <= k < i + 1 implies (#[trigger] animations@.take(i + 1)[k]).0
                < animations@.take(i + 1)[k].1 by {
                if k < i {
                    assert(animations@.take(i as int)[k] == animations@[k]);
                }
            }
            i += 1;
        }
        assert(animations@.take(i as int) =~= animations@);
        if current_animation >= animations.len() || next_animation >= animations.len() {
            return Err(ConfigurationError::UnknownClip);
        }
        let frame = animations[current_animation].0;
        Ok(
            AnimatableLayer {
                timer,
                animations,
                playhead: Playhead { clip: current_animation, frame },
                next_animation,
                flip_x,
                repeat,
                mirrored: flip_x,
            },
        )
    }

    /// What is to be drawn: a frame of the clip that plays.
    pub fn sprite(&self) -> (sprite: SpriteFrame)
        ensures
            sprite == self@.sprite,
            self@.well_formed(),
    {
        proof {
            use_type_invariant(self);
        }
        SpriteFrame { index: self.playhead.frame, flip_x: self.mirrored }
    }

    /// The timer that paces the animation.
    pub fn timer(&self) -> (timer: RepeatingTimer)
        ensures
            timer == self@.timer,
    {
        self.timer
    }

    /// The clips, each from its first frame up to, and without, its end.
    pub fn animations(&self) -> (animations: &Vec<(usize, usize)>)
        ensures
            animations@ == self@.animations,
            self@.well_formed(),
    {
        proof {
            use_type_invariant(self);
        }
        &self.animations
    }

    /// The index of the clip that plays.
    pub fn current_animation(&self) -> (clip: usize)
        ensures
            clip == self@.current_animation,
            self@.well_formed(),
    {
        proof {
            use_type_invariant(self);
        }
        self.playhead.clip
    }

    /// The index of the clip that is asked for.
    pub fn next_animation(&self) -> (clip: usize)
        ensures
            clip == self@.next_animation,
            self@.well_formed(),
    {
        proof {
            use_type_invariant(self);
        }
        self.next_animation
    }

    /// Whether the sprite is asked to be mirrored.
    pub fn flip_x(&self) -> (flip_x: bool)
        ensures
            flip_x == self@.flip_x,
    {
        self.flip_x
    }

    /// Whether a clip starts over after its last frame.
    pub fn repeat(&self) -> (repeat: bool)
        ensures
            repeat == self@.repeat,
    {
        self.repeat
    }

    /// Asks for the clip `clip`: it starts when the timer expires next. An
    /// index that names no clip is refused, and the layer stays as it is.
    pub fn request_animation(&mut self, clip: usize) -> (accepted: bool)
        ensures
            accepted == (clip < old(self)@.animations.len()),
            final(self)@ == old(self)@.asked_for(clip),
    {
        proof {
            use_type_invariant(&*self);
        }
        if clip < self.animations.len() {
            self.next_animation = clip;
            true
        } else {
            false
        }
    }

    /// Asks for the sprite to be mirrored, or not. It is drawn so from the
    /// next frame on.
    pub fn set_flip_x(&mut self, flip_x: bool)
        ensures
            final(self)@ == (LayerView { flip_x, ..old(self)@ }),
    {
        proof {
            use_type_invariant(&*self);
        }
        self.flip_x = flip_x;
    }

    /// Sets whether a clip starts over after its last frame.
    pub fn set_repeat(&mut self, repeat: bool)
        ensures
            final(self)@ == (LayerView { repeat, ..old(self)@ }),
    {
        proof {
            use_type_invariant(&*self);
        }
        self.repeat = repeat;
    }

    /// Lets a frame of `delta_nanos` pass.
    pub fn tick(&mut self, delta_nanos: u64)
        ensures
            final(self)@ == old(self)@.tick(delta_nanos),
    {
        proof {
            use_type_invariant(&*self);
        }
        self.mirrored = self.flip_x;
        let mut timer = self.timer;
        let expired = timer.tick(delta_nanos);
        self.timer = timer;
        if expired {
            let current = self.playhead.clip;
            if self.next_animation != current {
                let next = self.next_animation;
                self.playhead = Playhead { clip: next, frame: self.animations[next].0 };
            } else {
                let (first, end) = self.animations[current];
                if self.playhead.frame + 1 < end {
                    self.playhead = Playhead { clip: current, frame: self.playhead.frame + 1 };
                } else if self.repeat {
                    self.playhead = Playhead { clip: current, frame: first };
                } else {
                    self.playhead = Playhead { clip: current, frame: end - 1 };
                }
            }
        }
    }
}

/// Lets a frame of `delta_nanos` pass for every layer: each timer runs on,
/// each sprite is mirrored as asked for, and where the timer expires the
/// animation advances.
pub fn update_animation(layers: &mut Vec<AnimatableLayer>, delta_nanos: u64)
    ensures
        views(final(layers)@) == views(old(layers)@).map_values(
            |layer: LayerView| layer.tick(delta_nanos),
        ),
{
    let mut i: usize = 0;
    while i < layers.len()
        invariant
            i <= layers.len(),
            layers@.len() == old(layers)@.len(),
            forall|j: int| 0 <= j < i ==> (#[trigger] layers@[j])@ == old(layers)@[j]@.tick(delta_nanos),
            forall|j: int| i <= j < layers@.len() ==> (#[trigger] layers@[j])@ == old(layers)@[j]@,
        decreases layers.len() - i,
    {
        layers[i].tick(delta_nanos);
        i += 1;
    }
    assert(views(layers@) =~= views(old(layers)@).map_values(
        |layer: LayerView| layer.tick(delta_nanos),
    ));
}

} // verus!
