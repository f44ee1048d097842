use vstd::prelude::*;

use crate::geometry::Vector2i;

verus! {

/// Frames an explosion's animation spans.
pub const EXPLOSION_SPAN: i32 = 20;

/// The last frame on which an explosion is still shown.
pub const EXPLOSION_LAST_FRAME: i32 = 15;

/// A transient explosion at a grid cell, with its frame timer.
#[derive(PartialEq, Eq, Structural, Clone, Copy, Debug)]
pub struct Explosion {
    pub position: Vector2i,
    pub timer: i32,
}

impl Explosion {
    pub fn new(position: Vector2i) -> (r: Explosion)
        ensures
            r == (Explosion { position, timer: 0 }),
    {
        Explosion { position, timer: 0 }
    }

    pub open spec fn spec_finished(&self) -> bool {
        self.timer > EXPLOSION_LAST_FRAME
    }

    /// The animation has run its course.
    pub fn finished(&self) -> (r: bool)
        ensures
            r == self.spec_finished(),
    {
        self.timer > EXPLOSION_LAST_FRAME
    }

    /// Advances the animation by one frame. Returns which of `frames` images
    /// to show now (the span of the animation divided evenly among them), or
    /// none once the animation has finished.
    pub fn next_frame(&mut self, frames: usize) -> (r: Option<usize>)
        requires
            frames > 0,
            0 <= old(self).timer,
        ensures
            old(self).spec_finished() ==> r is None && *final(self) == *old(self),
            !old(self).spec_finished() ==> r == Some(((old(self).timer * frames) / (EXPLOSION_SPAN as int)) as usize)
                && r.unwrap() < frames && final(self).position == old(self).position
                && final(self).timer == old(self).timer + 1,
    {
        if self.finished() {
            return None;
        }
        let t = self.timer as usize;
        let span = EXPLOSION_SPAN as usize;
        let q = frames / span;
        let rem = frames % span;
        proof {
            assert(t * frames == t * q * 20 + t * rem) by (nonlinear_arith)
                requires
                    frames == q * 20 + rem,
            ;
            assert(t * q <= frames) by (nonlinear_arith)
                requires
                    t <= 15,
                    frames == q * 20 + rem,
                    0 <= rem,
            ;
            assert(t * rem < 20 * 20) by (nonlinear_arith)
                requires
                    t <= 15,
                    rem < 20,
                    0 <= rem,
            ;
            assert((t * q * 20 + t * rem) / 20 == t * q + (t * rem) / 20) by (nonlinear_arith)
                requires
                    0 <= t * rem,
            ;
            assert(t * frames < frames * 20) by (nonlinear_arith)
                requires
                    t <= 15,
                    frames > 0,
            ;
        }
        let index = t * q + (t * rem) / span;
        self.timer = self.timer + 1;
        Some(index)
    }
}

} // verus!
