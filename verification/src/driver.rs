//! The frame driver: thin per-tick glue. It owns the shared pixel buffer and
//! the clock, hands each configured generator exclusive access to its
//! assigned slice once per tick, and then advances the clock. Slice
//! ownership is validated once, at construction: ranges of different
//! generators never overlap, so no runtime locking is needed.

use crate::animations::glitch::{glitch_rendered, Glitch};
use crate::effects::arrow::{arrow_half, Arrow};
use crate::effects::color_set::{palette_rendered, ColorSet};
use crate::effects::running_lights::{chase_period, chase_pixel, chase_rendered, RunningLights};
use crate::pixel::{off, Pixel};
use crate::tick::{wrap_next, Tick};
use vstd::prelude::*;

verus! {

/// A generator that can render into a buffer slice once per tick: every
/// concrete effect is one variant of this capability.
pub enum Effect {
    /// The palette cycler.
    Palette(ColorSet),
    /// The chase generator.
    Chase(RunningLights),
    /// The composite arrow.
    Arrow(Arrow),
    /// The glitch flicker.
    Glitch(Glitch),
}

impl Effect {
    /// The wrapped generator is internally consistent.
    pub open spec fn wf(self) -> bool {
        match self {
            Effect::Palette(c) => c.wf(),
            Effect::Chase(r) => r.wf(),
            Effect::Arrow(a) => a.wf(),
            Effect::Glitch(g) => g.wf(),
        }
    }

    /// The effect can render a range of `len` pixels in its current state:
    /// the range gives a chase room for its tail (under wrap-immediately),
    /// gives an arrow two non-trivial arms, and the head stands on its
    /// timeline.
    pub open spec fn fits(self, len: int) -> bool {
        match self {
            Effect::Palette(_) => true,
            Effect::Chase(r) => r.fits_len(len),
            Effect::Arrow(a) => a.fits_len(len),
            Effect::Glitch(_) => true,
        }
    }

    /// Checks that the effect can render a range of `len` pixels.
    pub fn fits_check(&self, len: usize) -> (b: bool)
        requires
            self.wf(),
        ensures
            b == self.fits(len as int),
    {
        match self {
            Effect::Palette(_) => true,
            Effect::Chase(r) => r.fits_range(len),
            Effect::Arrow(a) => a.fits_range(len),
            Effect::Glitch(_) => true,
        }
    }

    /// One render step: `post` and the slice contents `out` are a permitted
    /// outcome of rendering from `pre` at clock value `clock`. For every
    /// effect but the glitch flicker inside its random window, `out` is
    /// pinned exactly.
    pub open spec fn steps_to(pre: Effect, post: Effect, out: Seq<Pixel>, clock: int) -> bool {
        let len = out.len() as int;
        match (pre, post) {
            (Effect::Palette(c0), Effect::Palette(c1)) => {
                &&& c1.wf()
                &&& c1.colors_spec() == c0.colors_spec()
                &&& palette_rendered(c0.colors_spec(), out)
            },
            (Effect::Chase(r0), Effect::Chase(r1)) => {
                &&& r1.wf()
                &&& r1.color_spec() == r0.color_spec()
                &&& r1.must_exit_spec() == r0.must_exit_spec()
                &&& r1.reverse_spec() == r0.reverse_spec()
                &&& r1.tail_spec() == r0.tail_spec()
                &&& chase_rendered(
                    r0.color_spec(),
                    r0.must_exit_spec(),
                    r0.tail_spec(),
                    r0.head_spec(),
                    r0.reverse_spec(),
                    out,
                )
                &&& r1.terminus_spec() == chase_pixel(
                    r0.color_spec(),
                    r0.must_exit_spec(),
                    r0.tail_spec(),
                    r0.head_spec(),
                    len,
                    len - 1,
                )
                &&& r1.head_spec() == wrap_next(
                    r0.head_spec(),
                    chase_period(r0.must_exit_spec(), r0.tail_spec(), len),
                )
            },
            (Effect::Arrow(a0), Effect::Arrow(a1)) => {
                &&& a1.wf()
                &&& a1.color_spec() == a0.color_spec()
                &&& a1.tail_spec() == a0.tail_spec()
                &&& forall|i: int|
                    0 <= i < arrow_half(len) ==> #[trigger] out[i] == chase_pixel(
                        a0.color_spec(),
                        true,
                        a0.tail_spec(),
                        a0.head_spec(),
                        arrow_half(len),
                        i,
                    )
                &&& forall|i: int|
                    len - arrow_half(len) <= i < len ==> #[trigger] out[i] == chase_pixel(
                        a0.color_spec(),
                        true,
                        a0.tail_spec(),
                        a0.head_spec(),
                        arrow_half(len),
                        len - 1 - i,
                    )
                &&& (len % 2 == 1 ==> out[arrow_half(len)] == a0.left_spec().terminus_spec())
                &&& a1.head_spec() == wrap_next(
                    a0.head_spec(),
                    chase_period(true, a0.tail_spec(), arrow_half(len)),
                )
            },
            (Effect::Glitch(g0), Effect::Glitch(g1)) => {
                &&& g1.wf()
                &&& g1.colors_spec() == g0.colors_spec()
                &&& g1.same_phases(g0)
                &&& glitch_rendered(g0, out, clock)
            },
            _ => false,
        }
    }

    /// Renders one frame into the assigned slice for the given clock value
    /// and advances the wrapped generator's own state.
    pub fn render(&mut self, leds: &mut Vec<Pixel>, clock: usize)
        requires
            old(self).wf(),
            old(self).fits(old(leds)@.len() as int),
        ensures
            final(self).wf(),
            final(self).fits(old(leds)@.len() as int),
            final(leds)@.len() == old(leds)@.len(),
            Effect::steps_to(*old(self), *final(self), final(leds)@, clock as int),
    {
        match self {
            Effect::Palette(c) => c.mutate(leds),
            Effect::Chase(r) => r.mutate(leds),
            Effect::Arrow(a) => a.mutate(leds),
            Effect::Glitch(g) => g.render_frame(leds, clock),
        }
    }
}

/// One generator together with the half-open index range it owns within the
/// shared buffer.
pub struct Assignment {
    /// The generator.
    pub effect: Effect,
    /// The first pixel of the owned range.
    pub start: usize,
    /// One past the last pixel of the owned range.
    pub end: usize,
}

/// A configuration rejected at construction: the device has no safe
/// degraded mode, so invalid geometry never reaches the render loop.
#[derive(Clone, Copy, PartialEq, Eq, Structural, Debug)]
pub enum ConfigError {
    /// A range whose start lies past its end.
    RangeReversed,
    /// A range reaching past the end of the buffer.
    RangeOutOfBounds,
    /// A range too small for its effect (a chase tail that cannot fit, or
    /// an arrow with fewer than four pixels).
    RangeTooSmall,
    /// Two assigned ranges intersect.
    OverlappingRanges,
}

/// No two assigned ranges intersect.
pub open spec fn ranges_disjoint(assigns: Seq<Assignment>) -> bool {
    forall|p: int, q: int|
        0 <= p < q < assigns.len() ==> #[trigger] assigns[p].end <= #[trigger] assigns[q].start
            || assigns[q].end <= assigns[p].start
}

/// Every range is well-formed, lies inside a buffer of `buffer_len` pixels,
/// and is large enough for its effect.
pub open spec fn ranges_fit(assigns: Seq<Assignment>, buffer_len: int) -> bool {
    forall|p: int|
        0 <= p < assigns.len() ==> {
            &&& (#[trigger] assigns[p]).start <= assigns[p].end <= buffer_len
            &&& assigns[p].effect.fits(assigns[p].end - assigns[p].start)
        }
}

/// Buffer position `x` belongs to one of the first `k` assigned ranges.
pub open spec fn covered_upto(assigns: Seq<Assignment>, k: int, x: int) -> bool {
    exists|m: int| 0 <= m < k && (#[trigger] assigns[m]).start <= x < assigns[m].end
}

/// Buffer position `x` belongs to one of the assigned ranges.
pub open spec fn covered(assigns: Seq<Assignment>, x: int) -> bool {
    covered_upto(assigns, assigns.len() as int, x)
}

/// The frame driver: the shared pixel buffer, the generators with their
/// disjoint slice assignments, and the clock.
pub struct FrameDriver {
    buffer: Vec<Pixel>,
    assignments: Vec<Assignment>,
    tick: Tick,
}

impl FrameDriver {
    /// The shared pixel buffer.
    pub closed spec fn buffer_spec(self) -> Seq<Pixel> {
        self.buffer@
    }

    /// The slice assignments.
    pub closed spec fn assignments_spec(self) -> Seq<Assignment> {
        self.assignments@
    }

    /// The clock.
    pub closed spec fn tick_spec(self) -> Tick {
        self.tick
    }

    /// The clock runs, every generator is internally consistent, and the
    /// assigned ranges lie inside the buffer, fit their effects, and are
    /// pairwise disjoint.
    pub open spec fn wf(self) -> bool {
        &&& self.tick_spec().wf()
        &&& ranges_disjoint(self.assignments_spec())
        &&& ranges_fit(self.assignments_spec(), self.buffer_spec().len() as int)
        &&& forall|p: int|
            0 <= p < self.assignments_spec().len() ==> (
            #[trigger] self.assignments_spec()[p]).effect.wf()
    }

    /// Validates a configuration and builds the driver: every range must
    /// lie inside the buffer, be large enough for its effect, and be
    /// disjoint from every other range; the buffer starts all off and the
    /// clock at zero. An invalid configuration is rejected, never run.
    pub fn new(buffer_len: usize, assignments: Vec<Assignment>, ticks_per_sec: u16) -> (r: Result<
        FrameDriver,
        ConfigError,
    >)
        requires
            ticks_per_sec >= 1,
            forall|p: int|
                0 <= p < assignments@.len() ==> (#[trigger] assignments@[p]).effect.wf(),
        ensures
            r is Ok <==> ranges_fit(assignments@, buffer_len as int) && ranges_disjoint(
                assignments@,
            ),
            r is Ok ==> {
                let d = r->Ok_0;
                &&& d.wf()
                &&& d.buffer_spec().len() == buffer_len
                &&& forall|x: int| 0 <= x < buffer_len ==> d.buffer_spec()[x] == off()
                &&& d.assignments_spec() == assignments@
                &&& d.tick_spec().period() == ticks_per_sec
                &&& d.tick_spec().value() == 0
            },
            r == Result::<FrameDriver, ConfigError>::Err(ConfigError::RangeReversed) ==> exists|
                p: int,
            |
                0 <= p < assignments@.len() && (#[trigger] assignments@[p]).start
                    > assignments@[p].end,
            r == Result::<FrameDriver, ConfigError>::Err(ConfigError::RangeOutOfBounds) ==> exists|
                p: int,
            |
                0 <= p < assignments@.len() && (#[trigger] assignments@[p]).end > buffer_len,
            r == Result::<FrameDriver, ConfigError>::Err(ConfigError::RangeTooSmall) ==> exists|
                p: int,
            |
                0 <= p < assignments@.len() && !(#[trigger] assignments@[p]).effect.fits(
                    assignments@[p].end - assignments@[p].start,
                ),
            r == Result::<FrameDriver, ConfigError>::Err(ConfigError::OverlappingRanges)
                ==> !ranges_disjoint(assignments@),
    {
        let n = assignments.len();

        // every range inside the buffer and large enough for its effect
        let mut p: usize = 0;
        while p < n
            invariant
                n == assignments@.len(),
                p <= n,
                forall|q: int|
                    0 <= q < assignments@.len() ==> (#[trigger] assignments@[q]).effect.wf(),
                forall|m: int|
                    0 <= m < p ==> {
                        &&& (#[trigger] assignments@[m]).start <= assignments@[m].end
                            <= buffer_len
                        &&& assignments@[m].effect.fits(
                            assignments@[m].end - assignments@[m].start,
                        )
                    },
            decreases n - p,
        {
            let start = assignments[p].start;
            let end = assignments[p].end;
            if start > end {
                return Err(ConfigError::RangeReversed);
            }
            if end > buffer_len {
                return Err(ConfigError::RangeOutOfBounds);
            }
            if !assignments[p].effect.fits_check(end - start) {
                return Err(ConfigError::RangeTooSmall);
            }
            p += 1;
        }

        // no two ranges intersect
        p = 0;
        while p < n
            invariant
                n == assignments@.len(),
                p <= n,
                forall|m1: int, m2: int|
                    0 <= m1 < m2 < n && m1 < p ==> #[trigger] assignments@[m1].end
                        <= #[trigger] assignments@[m2].start || assignments@[m2].end
                        <= assignments@[m1].start,
            decreases n - p,
        {
            let mut q: usize = p + 1;
            while q < n
                invariant
                    n == assignments@.len(),
                    p < n,
                    p < q <= n,
                    forall|m1: int, m2: int|
                        0 <= m1 < m2 < n && m1 < p ==> #[trigger] assignments@[m1].end
                            <= #[trigger] assignments@[m2].start || assignments@[m2].end
                            <= assignments@[m1].start,
                    forall|m2: int|
                        p < m2 < q ==> assignments@[p as int].end <= (
                        #[trigger] assignments@[m2]).start || assignments@[m2].end
                            <= assignments@[p as int].start,
                decreases n - q,
            {
                let p_end = assignments[p].end;
                let p_start = assignments[p].start;
                let q_end = assignments[q].end;
                let q_start = assignments[q].start;
                if !(p_end <= q_start || q_end <= p_start) {
                    assert(!ranges_disjoint(assignments@));
                    return Err(ConfigError::OverlappingRanges);
                }
                q += 1;
            }
            p += 1;
        }

        // the strip starts with every pixel off
        let mut buffer: Vec<Pixel> = Vec::new();
        while buffer.len() < buffer_len
            invariant
                buffer@.len() <= buffer_len,
                forall|x: int| 0 <= x < buffer@.len() ==> buffer@[x] == off(),
            decreases buffer_len - buffer@.len(),
        {
            buffer.push(Pixel { r: 0, g: 0, b: 0 });
        }

        Ok(FrameDriver { buffer, assignments, tick: Tick::new(ticks_per_sec) })
    }

    /// The shared pixel buffer, in strip order, for the external
    /// strip-write collaborator.
    pub fn buffer(&self) -> (b: &Vec<Pixel>)
        ensures
            b@ == self.buffer_spec(),
    {
        &self.buffer
    }

    /// The current clock value.
    pub fn clock(&self) -> (c: u16)
        ensures
            c == self.tick_spec().value(),
    {
        self.tick.elapsed()
    }

    /// The length of one tick in milliseconds, for the external delay
    /// collaborator.
    pub fn tick_len_ms(&self) -> (ms: u16)
        requires
            self.wf(),
        ensures
            ms == 1000int / self.tick_spec().period(),
    {
        self.tick.len()
    }

    /// Renders one full frame: each generator is invoked exactly on its own
    /// slice of the shared buffer at the current clock value, pixels
    /// outside every assigned range are left untouched, and the clock then
    /// advances by one.
    pub fn render_tick(&mut self)
        requires
            old(self).wf(),
        ensures
            final(self).wf(),
            final(self).buffer_spec().len() == old(self).buffer_spec().len(),
            final(self).assignments_spec().len() == old(self).assignments_spec().len(),
            forall|j: int|
                0 <= j < old(self).assignments_spec().len() ==> {
                    let pre = old(self).assignments_spec()[j];
                    let post = #[trigger] final(self).assignments_spec()[j];
                    &&& post.start == pre.start
                    &&& post.end == pre.end
                    &&& Effect::steps_to(
                        pre.effect,
                        post.effect,
                        final(self).buffer_spec().subrange(pre.start as int, pre.end as int),
                        old(self).tick_spec().value(),
                    )
                },
            forall|x: int|
                0 <= x < old(self).buffer_spec().len() && !covered(
                    old(self).assignments_spec(),
                    x,
                ) ==> final(self).buffer_spec()[x] == old(self).buffer_spec()[x],
            final(self).tick_spec().period() == old(self).tick_spec().period(),
            final(self).tick_spec().value() == wrap_next(
                old(self).tick_spec().value(),
                old(self).tick_spec().period(),
            ),
    {
        let clock = self.tick.elapsed();
        let n = self.assignments.len();
        let blen = self.buffer.len();
        let mut j: usize = 0;
        while j < n
            invariant
                old(self).wf(),
                n == self.assignments@.len(),
                n == old(self).assignments_spec().len(),
                j <= n,
                self.tick == old(self).tick_spec(),
                clock == old(self).tick_spec().value(),
                blen == self.buffer@.len(),
                blen == old(self).buffer_spec().len(),
                forall|m: int|
                    j <= m < n ==> #[trigger] self.assignments@[m] == old(
                        self,
                    ).assignments_spec()[m],
                forall|m: int|
                    0 <= m < j ==> {
                        let pre = old(self).assignments_spec()[m];
                        let post = #[trigger] self.assignments@[m];
                        &&& post.start == pre.start
                        &&& post.end == pre.end
                        &&& post.effect.wf()
                        &&& post.effect.fits(pre.end - pre.start)
                        &&& Effect::steps_to(
                            pre.effect,
                            post.effect,
                            self.buffer@.subrange(pre.start as int, pre.end as int),
                            clock as int,
                        )
                    },
                forall|x: int|
                    0 <= x < blen && !covered_upto(old(self).assignments_spec(), j as int, x)
                        ==> self.buffer@[x] == old(self).buffer_spec()[x],
            decreases n - j,
        {
            let start = self.assignments[j].start;
            let end = self.assignments[j].end;
            assert(old(self).assignments_spec()[j as int].start == start);
            assert(start <= end <= blen);

            let ghost pre_assigns = self.assignments@;
            let mut entry = self.assignments.remove(j);

            // the generator receives a bounded view of its own slice only
            let mut slice: Vec<Pixel> = Vec::new();
            let mut x: usize = 0;
            while x < end - start
                invariant
                    x <= end - start,
                    start <= end <= blen,
                    blen == self.buffer@.len(),
                    slice@.len() == x,
                decreases end - start - x,
            {
                let px = self.buffer[start + x];
                slice.push(px);
                x += 1;
            }

            entry.effect.render(&mut slice, clock as usize);

            // the rendered slice goes back to the owned range, and nowhere else
            let ghost buf_before = self.buffer@;
            x = 0;
            while x < end - start
                invariant
                    x <= end - start,
                    start <= end <= blen,
                    blen == self.buffer@.len(),
                    slice@.len() == end - start,
                    buf_before.len() == blen,
                    self.assignments@ == pre_assigns.remove(j as int),
                    self.tick == old(self).tick_spec(),
                    forall|i: int| 0 <= i < x ==> self.buffer@[start + i] == slice@[i],
                    forall|y: int|
                        0 <= y < blen && !(start <= y < start + x) ==> self.buffer@[y]
                            == buf_before[y],
                decreases end - start - x,
            {
                let px = slice[x];
                self.buffer.set(start + x, px);
                x += 1;
            }
            assert(self.buffer@.subrange(start as int, end as int) =~= slice@);

            self.assignments.insert(j, entry);
            assert(self.assignments@ =~= pre_assigns.update(j as int, self.assignments@[j as int]));

            proof {
                // ranges already rendered are disjoint from this one, so
                // their slices are untouched
                assert forall|m: int| 0 <= m < j implies self.buffer@.subrange(
                    old(self).assignments_spec()[m].start as int,
                    old(self).assignments_spec()[m].end as int,
                ) =~= buf_before.subrange(
                    old(self).assignments_spec()[m].start as int,
                    old(self).assignments_spec()[m].end as int,
                ) by {
                    let ms = old(self).assignments_spec()[m].start as int;
                    let me = old(self).assignments_spec()[m].end as int;
                    assert(old(self).assignments_spec()[m].end <= old(
                        self,
                    ).assignments_spec()[j as int].start || old(
                        self,
                    ).assignments_spec()[j as int].end <= old(self).assignments_spec()[m].start);
                }
            }
            j += 1;
        }

        self.tick.tock();
    }
}

} // verus!
