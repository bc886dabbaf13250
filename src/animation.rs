use vstd::prelude::*;

verus! {

/// Microseconds in one second.
pub const MICROS_PER_SECOND: u64 = 1_000_000;

/// Playback state of an animation; times in microseconds.
#[derive(Clone, Copy, Debug, PartialEq, Eq, Structural)]
pub struct MathAnimation {
    pub duration: u64,
    pub elapsed: u64,
    pub is_playing: bool,
    pub loop_animation: bool,
}

/// The kinds of animation.
#[derive(Clone, Copy, Debug, PartialEq, Eq, Structural)]
pub enum AnimationType {
    Transform,
    Fade,
    Draw,
    Write,
    Morph,
}

/// The state after a frame of `dt` microseconds: a playing animation
/// advances; once it reaches its duration it starts over if it loops, and
/// stops otherwise. A paused one is left as it is.
pub open spec fn spec_advance(a: MathAnimation, dt: nat) -> MathAnimation {
    if !a.is_playing {
        a
    } else {
        let t = if a.elapsed + dt > u64::MAX {
            u64::MAX as int
        } else {
            a.elapsed + dt
        };
        if t >= a.duration {
            if a.loop_animation {
                MathAnimation { elapsed: 0, ..a }
            } else {
                MathAnimation { elapsed: t as u64, is_playing: false, ..a }
            }
        } else {
            MathAnimation { elapsed: t as u64, ..a }
        }
    }
}

impl MathAnimation {
    /// Advances the animation by one frame of `dt` microseconds.
    pub fn update(&mut self, dt: u64)
        ensures
            *final(self) == spec_advance(*old(self), dt as nat),
    {
        if self.is_playing {
            self.elapsed = self.elapsed.saturating_add(dt);
            if self.elapsed >= self.duration {
                if self.loop_animation {
                    self.elapsed = 0;
                } else {
                    self.is_playing = false;
                }
            }
        }
    }
}

impl Default for MathAnimation {
    /// A one-second animation, stopped at its start, not looping.
    fn default() -> (r: MathAnimation)
        ensures
            r == (MathAnimation {
                duration: MICROS_PER_SECOND,
                elapsed: 0,
                is_playing: false,
                loop_animation: false,
            }),
    {
        MathAnimation { duration: MICROS_PER_SECOND, elapsed: 0, is_playing: false, loop_animation: false }
    }
}

} // verus!
