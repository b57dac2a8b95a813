//! A bounded frame counter for one animation: it tracks which frame of a
//! fixed-length cycle is being displayed and wraps to the first frame after
//! the last.

use crate::tick::wrap_next;
use vstd::prelude::*;

verus! {

/// Frame state for an animation of `frame_cnt` frames. `frames_displayed`
/// is the zero-based index of the current frame and wraps to zero after
/// `frame_cnt - 1`.
pub struct Animation {
    frame_cnt: usize,
    frames_displayed: usize,
}

impl Animation {
    /// The number of frames in one cycle of the animation.
    pub closed spec fn frame_cnt_spec(self) -> int {
        self.frame_cnt as int
    }

    /// The zero-based index of the current frame.
    pub closed spec fn frames_displayed_spec(self) -> int {
        self.frames_displayed as int
    }

    /// The frame index stays strictly below the cycle length.
    pub open spec fn wf(self) -> bool {
        self.frame_cnt_spec() >= 1 && 0 <= self.frames_displayed_spec() < self.frame_cnt_spec()
    }

    /// A fresh animation of `frame_cnt` frames starts at frame zero.
    pub fn new(frame_cnt: usize) -> (a: Animation)
        requires
            frame_cnt >= 1,
        ensures
            a.wf(),
            a.frame_cnt_spec() == frame_cnt,
            a.frames_displayed_spec() == 0,
    {
        Animation { frame_cnt, frames_displayed: 0 }
    }

    /// The zero-based index of the current frame.
    pub fn frames_displayed(&self) -> (n: usize)
        ensures
            n == self.frames_displayed_spec(),
    {
        self.frames_displayed
    }

    /// Advances to the next frame, wrapping to the first frame after the
    /// last. Meant to be called at the end of each rendering cycle.
    pub fn next(&mut self) -> (r: &Self)
        requires
            old(self).wf(),
        ensures
            final(self).wf(),
            final(self).frame_cnt_spec() == old(self).frame_cnt_spec(),
            final(self).frames_displayed_spec() == wrap_next(
                old(self).frames_displayed_spec(),
                old(self).frame_cnt_spec(),
            ),
            *r == *final(self),
    {
        if self.frames_displayed < self.frame_cnt - 1 {
            self.frames_displayed += 1;
        } else {
            self.frames_displayed = 0;
        }

        self
    }
}

} // verus!
