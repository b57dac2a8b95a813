//! The composite arrow: two mirrored chase generators over the two halves of
//! one assigned range, producing a symmetric converging pattern. When the
//! range has an odd number of pixels the exact midpoint belongs to neither
//! half; it takes the terminal color read from the left arm before either
//! arm mutates, so the point pixel runs one step ahead of the arms instead
//! of lagging a frame behind.

use crate::effects::running_lights::{chase_period, chase_pixel, RunningLights};
use crate::pixel::Pixel;
use crate::tick::wrap_next;
use vstd::prelude::*;

verus! {

/// The length of each arm of an arrow over `len` pixels: both halves are
/// equal, and for odd `len` one midpoint slot is left between them.
pub open spec fn arrow_half(len: int) -> int {
    len / 2
}

/// Two mirrored chases over the two halves of one range: the left arm runs
/// forward, the right arm in reverse, both under must-exit-before-restart
/// and in lockstep.
pub struct Arrow {
    left: RunningLights,
    right: RunningLights,
}

impl Arrow {
    /// The left arm.
    pub closed spec fn left_spec(self) -> RunningLights {
        self.left
    }

    /// The right arm.
    pub closed spec fn right_spec(self) -> RunningLights {
        self.right
    }

    /// The shared color of both arms.
    pub open spec fn color_spec(self) -> Pixel {
        self.left_spec().color_spec()
    }

    /// The shared tail length of both arms.
    pub open spec fn tail_spec(self) -> int {
        self.left_spec().tail_spec()
    }

    /// The shared head position of both arms.
    pub open spec fn head_spec(self) -> int {
        self.left_spec().head_spec()
    }

    /// The arms are mirror images in lockstep: same color, same tail, same
    /// head, must-exit policy on both, the left one forward and the right
    /// one reversed.
    pub open spec fn wf(self) -> bool {
        &&& self.left_spec().wf()
        &&& self.right_spec().wf()
        &&& self.left_spec().must_exit_spec()
        &&& self.right_spec().must_exit_spec()
        &&& !self.left_spec().reverse_spec()
        &&& self.right_spec().reverse_spec()
        &&& self.right_spec().color_spec() == self.left_spec().color_spec()
        &&& self.right_spec().tail_spec() == self.left_spec().tail_spec()
        &&& self.right_spec().head_spec() == self.left_spec().head_spec()
    }

    /// The arrow can render a range of `len` pixels in its current state:
    /// at least four pixels (two non-trivial mirrored arms), with the
    /// shared head on each arm's timeline.
    pub open spec fn fits_len(self, len: int) -> bool {
        &&& len >= 4
        &&& self.head_spec() < chase_period(true, self.tail_spec(), arrow_half(len))
    }

    /// Checks that this arrow can render a range of `len` pixels.
    pub fn fits_range(&self, len: usize) -> (b: bool)
        requires
            self.wf(),
        ensures
            b == self.fits_len(len as int),
    {
        len >= 4 && self.left.fits_range(len / 2)
    }

    /// Builds an arrow of the given color and per-arm tail length, with
    /// both heads at position zero.
    pub fn new(color: &Pixel, tail_length: usize) -> (a: Arrow)
        requires
            tail_length <= 254,
        ensures
            a.wf(),
            a.color_spec() == *color,
            a.tail_spec() == tail_length,
            a.head_spec() == 0,
    {
        let run_in_reverse = true;
        Arrow {
            left: RunningLights::new(color, true, !run_in_reverse, tail_length),
            right: RunningLights::new(color, true, run_in_reverse, tail_length),
        }
    }

    /// Renders one frame of the arrow into the assigned slice.
    ///
    /// For an odd-length range the midpoint slot takes the terminal color
    /// read from the left arm *before* either arm mutates (both arms carry
    /// the same terminal color, as they are equally sized and run in
    /// lockstep). Then each arm renders its own half independently: the
    /// left arm over the front half, the right arm, mirrored, over the back
    /// half.
    pub fn mutate(&mut self, leds: &mut Vec<Pixel>)
        requires
            old(self).wf(),
            old(self).fits_len(old(leds)@.len() as int),
        ensures
            final(self).wf(),
            final(self).color_spec() == old(self).color_spec(),
            final(self).tail_spec() == old(self).tail_spec(),
            final(leds)@.len() == old(leds)@.len(),
            // the left arm's frame over the front half
            forall|i: int|
                0 <= i < arrow_half(old(leds)@.len() as int) ==> final(leds)@[i] == chase_pixel(
                    old(self).color_spec(),
                    true,
                    old(self).tail_spec(),
                    old(self).head_spec(),
                    arrow_half(old(leds)@.len() as int),
                    i,
                ),
            // the right arm's frame, mirrored, over the back half
            forall|i: int|
                old(leds)@.len() - arrow_half(old(leds)@.len() as int) <= i < old(leds)@.len()
                    ==> final(leds)@[i] == chase_pixel(
                    old(self).color_spec(),
                    true,
                    old(self).tail_spec(),
                    old(self).head_spec(),
                    arrow_half(old(leds)@.len() as int),
                    old(leds)@.len() - 1 - i,
                ),
            // midpoint continuity: for an odd range the point pixel shows
            // the terminal color read before this frame's mutation
            old(leds)@.len() % 2 == 1 ==> final(leds)@[arrow_half(old(leds)@.len() as int)] == old(
                self,
            ).left_spec().terminus_spec(),
            // both arms advance in lockstep
            final(self).head_spec() == wrap_next(
                old(self).head_spec(),
                chase_period(true, old(self).tail_spec(), arrow_half(old(leds)@.len() as int)),
            ),
            // the arms' cached terminal colors stay identical
            final(self).left_spec().terminus_spec() == final(self).right_spec().terminus_spec(),
            final(self).left_spec().terminus_spec() == chase_pixel(
                old(self).color_spec(),
                true,
                old(self).tail_spec(),
                old(self).head_spec(),
                arrow_half(old(leds)@.len() as int),
                arrow_half(old(leds)@.len() as int) - 1,
            ),
    {
        let len = leds.len();
        let half = len / 2;
        let odd = len - half > half;
        let ghost color = old(self).color_spec();
        let ghost tail = old(self).tail_spec();
        let ghost head = old(self).head_spec();

        // in the case of an odd number of pixels, the point cannot be
        // handled by either arm and is assigned before they mutate
        if odd {
            let t = self.left.color_at_terminus();
            leds.set(half, t);
        }
        let rstart = if odd {
            half + 1
        } else {
            half
        };
        assert(len - rstart == half);

        // the left arm renders the front half
        let mut arm_buf: Vec<Pixel> = Vec::new();
        let mut i: usize = 0;
        while i < half
            invariant
                i <= half,
                arm_buf@.len() == i,
            decreases half - i,
        {
            arm_buf.push(Pixel { r: 0, g: 0, b: 0 });
            i += 1;
        }
        self.left.mutate(&mut arm_buf);
        assert(odd ==> leds@[half as int] == old(self).left_spec().terminus_spec());
        let ghost mid_frame = leds@;
        i = 0;
        while i < half
            invariant
                i <= half,
                half < len,
                arm_buf@.len() == half,
                leds@.len() == len,
                forall|j: int| 0 <= j < i ==> leds@[j] == arm_buf@[j],
                forall|j: int| i <= j < len ==> leds@[j] == mid_frame[j],
            decreases half - i,
        {
            let c = arm_buf[i];
            leds.set(i, c);
            i += 1;
        }
        assert forall|j: int|
            0 <= j < half implies leds@[j] == chase_pixel(
            color,
            true,
            tail,
            head,
            half as int,
            j,
        ) by {
            assert(leds@[j] == arm_buf@[j]);
        }
        assert(odd ==> leds@[half as int] == old(self).left_spec().terminus_spec());

        // the right arm renders the back half, mirrored
        let mut arm_buf2: Vec<Pixel> = Vec::new();
        i = 0;
        while i < half
            invariant
                i <= half,
                arm_buf2@.len() == i,
            decreases half - i,
        {
            arm_buf2.push(Pixel { r: 0, g: 0, b: 0 });
            i += 1;
        }
        self.right.mutate(&mut arm_buf2);
        let ghost mid_frame2 = leds@;
        i = 0;
        while i < half
            invariant
                i <= half,
                rstart + half == len,
                arm_buf2@.len() == half,
                leds@.len() == len,
                forall|j: int| rstart <= j < rstart + i ==> leds@[j] == arm_buf2@[j - rstart],
                forall|j: int| 0 <= j < rstart ==> leds@[j] == mid_frame2[j],
                forall|j: int| rstart + i <= j < len ==> leds@[j] == mid_frame2[j],
            decreases half - i,
        {
            let c = arm_buf2[i];
            leds.set(rstart + i, c);
            i += 1;
        }
        assert forall|j: int|
            0 <= j < half implies leds@[j] == chase_pixel(
            color,
            true,
            tail,
            head,
            half as int,
            j,
        ) by {
            assert(leds@[j] == mid_frame2[j]);
        }
        assert forall|j: int|
            rstart <= j < len implies leds@[j] == chase_pixel(
            color,
            true,
            tail,
            head,
            half as int,
            half - 1 - (j - rstart),
        ) by {
            assert(leds@[j] == arm_buf2@[j - rstart]);
        }
        assert(odd ==> leds@[half as int] == old(self).left_spec().terminus_spec());
    }
}

} // verus!
