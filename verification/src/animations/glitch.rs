//! The glitch effect: a time-windowed, pseudo-random brightness flicker over
//! a palette-assigned pixel range, keyed off the clock. Within a fixed cycle
//! the effect holds every pixel solid, then lets odd-indexed pixels flicker
//! at random brightness levels for a window, and keeps them off the rest of
//! the time. Base colors are assigned by the same idempotent
//! position-indexed palette rule as the palette cycler, so nothing about a
//! pixel's past needs to be remembered.

use crate::effects::color_set::{cursor_steps, palette_pixel};
use crate::pixel::Pixel;
use vstd::arithmetic::div_mod::{lemma_add_mod_noop, lemma_mod_self_0, lemma_small_mod};
use vstd::prelude::*;

verus! {

/// The number of brightness levels a pixel can take, from 0 (the base
/// color, brightest) to one less than this count (off).
pub const BRIGHTNESS_LEVELS_CNT: usize = 10;

#[verifier::external_type_specification]
#[verifier::external_body]
/// The small pseudo-random generator of the `rand` crate, opaque here: the
/// library never relies on which values it yields, only on their range.
pub struct ExSmallRng(rand::rngs::SmallRng);

/// Relies on rand's `SeedableRng::seed_from_u64`: builds a deterministic
/// small generator from an explicit seed.
#[verifier::external_body]
fn rng_from_seed(seed: u64) -> rand::rngs::SmallRng {
    <rand::rngs::SmallRng as rand::SeedableRng>::seed_from_u64(seed)
}

/// Relies on rand's `Rng::random_range` over `0..n`: the sample always lies
/// below `n`. The call panics only on an empty range, which the
/// precondition rules out; nothing is assumed about which value comes back.
#[verifier::external_body]
fn sample_below(rng: &mut rand::rngs::SmallRng, n: usize) -> (r: usize)
    requires
        n >= 1,
    ensures
        r < n,
{
    rand::Rng::random_range(rng, 0..n)
}

/// One channel of a color faded toward off: level 0 keeps the channel,
/// the last level zeroes it, and levels between subtract the whole-step
/// quotient `c / (total - 1)` once per level.
pub open spec fn fade_channel(c: u8, level: int, total: int) -> u8 {
    if level == 0 {
        c
    } else if level == total - 1 {
        0
    } else {
        (c - (c as int / (total - 1)) * level) as u8
    }
}

/// A color faded toward off, channel by channel.
pub open spec fn fade_pixel(p: Pixel, level: int, total: int) -> Pixel {
    Pixel {
        r: fade_channel(p.r, level, total),
        g: fade_channel(p.g, level, total),
        b: fade_channel(p.b, level, total),
    }
}

/// Relies on the animation framework's `Transition::transition` for RGB
/// pixels, fading a color toward off in equally sized steps: level 0
/// returns the color itself, the last level returns off, and each level
/// between subtracts `level` times the per-step quotient from each channel.
#[verifier::external_body]
fn fade_toward_off(base: &Pixel, level: usize, total: usize) -> (p: Pixel)
    requires
        1 <= total <= 0x7fffffff,
        level < total,
    ensures
        p == fade_pixel(*base, level as int, total as int),
{
    let rgb = smart_leds::RGB8 { r: base.r, g: base.g, b: base.b };
    let faded = smart_leds_animations::animate::Transition::transition(
        &rgb,
        smart_leds::RGB8::default(),
        level,
        total,
    );
    Pixel { r: faded.r, g: faded.g, b: faded.b }
}

/// The glitch generator: a palette, a cursor into it (reset at the start of
/// every render call), the boundaries of the hold and flicker windows
/// within its cycle, and its own seeded pseudo-random generator.
pub struct Glitch {
    colors: Vec<Pixel>,
    current_color_index: usize,
    period: usize,
    hold_end: usize,
    second_hold_start: usize,
    second_hold_end: usize,
    glitch_start: usize,
    glitch_end: usize,
    rng: rand::rngs::SmallRng,
}

impl Glitch {
    /// The palette.
    pub closed spec fn colors_spec(self) -> Seq<Pixel> {
        self.colors@
    }

    /// The cursor into the palette.
    pub closed spec fn cursor_spec(self) -> int {
        self.current_color_index as int
    }

    /// The length of the effect's cycle, in clock ticks.
    pub closed spec fn period_spec(self) -> int {
        self.period as int
    }

    /// The end (exclusive) of the opening hold window.
    pub closed spec fn hold_end_spec(self) -> int {
        self.hold_end as int
    }

    /// The start (exclusive) of the second hold window.
    pub closed spec fn second_hold_start_spec(self) -> int {
        self.second_hold_start as int
    }

    /// The end (inclusive) of the second hold window.
    pub closed spec fn second_hold_end_spec(self) -> int {
        self.second_hold_end as int
    }

    /// The start (inclusive) of the flicker window.
    pub closed spec fn glitch_start_spec(self) -> int {
        self.glitch_start as int
    }

    /// The end (exclusive) of the flicker window.
    pub closed spec fn glitch_end_spec(self) -> int {
        self.glitch_end as int
    }

    /// Both generators share the phase layout exactly when all the window
    /// boundaries and the cycle length agree.
    pub open spec fn same_phases(self, other: Glitch) -> bool {
        &&& self.period_spec() == other.period_spec()
        &&& self.hold_end_spec() == other.hold_end_spec()
        &&& self.second_hold_start_spec() == other.second_hold_start_spec()
        &&& self.second_hold_end_spec() == other.second_hold_end_spec()
        &&& self.glitch_start_spec() == other.glitch_start_spec()
        &&& self.glitch_end_spec() == other.glitch_end_spec()
    }

    /// The palette is non-empty, the cursor points into it, and the cycle
    /// has at least one frame.
    pub open spec fn wf(self) -> bool {
        &&& self.colors_spec().len() >= 1
        &&& 0 <= self.cursor_spec() < self.colors_spec().len()
        &&& self.period_spec() >= 1
    }

    /// The position of a clock value within the effect's cycle.
    pub open spec fn phase_of(self, frame_index: int) -> int {
        frame_index % self.period_spec()
    }

    /// Pixel `i` stays solid at its base color on phase `idx`: even pixels
    /// always, every pixel during the opening hold window and during the
    /// second hold window.
    pub open spec fn is_solid(self, i: int, idx: int) -> bool {
        ||| i % 2 == 0
        ||| idx < self.hold_end_spec()
        ||| (self.second_hold_start_spec() < idx && idx <= self.second_hold_end_spec())
    }

    /// Phase `idx` lies in the flicker window, the only source of visual
    /// randomness in the system.
    pub open spec fn in_glitch_window(self, idx: int) -> bool {
        self.glitch_start_spec() <= idx < self.glitch_end_spec()
    }

    /// Builds a glitch generator over a non-empty palette, with the given
    /// cycle length (at least one frame), window boundaries within the
    /// cycle, and pseudo-random seed.
    pub fn new(
        colors: Vec<Pixel>,
        period: usize,
        hold_end: usize,
        second_hold_start: usize,
        second_hold_end: usize,
        glitch_start: usize,
        glitch_end: usize,
        seed: u64,
    ) -> (g: Glitch)
        requires
            colors@.len() >= 1,
            period >= 1,
        ensures
            g.wf(),
            g.colors_spec() == colors@,
            g.cursor_spec() == 0,
            g.period_spec() == period,
            g.hold_end_spec() == hold_end,
            g.second_hold_start_spec() == second_hold_start,
            g.second_hold_end_spec() == second_hold_end,
            g.glitch_start_spec() == glitch_start,
            g.glitch_end_spec() == glitch_end,
    {
        Glitch {
            colors,
            current_color_index: 0,
            period,
            hold_end,
            second_hold_start,
            second_hold_end,
            glitch_start,
            glitch_end,
            rng: rng_from_seed(seed),
        }
    }

    /// The palette entry under the cursor.
    fn current_color(&self) -> (c: Pixel)
        requires
            self.wf(),
        ensures
            c == self.colors_spec()[self.cursor_spec()],
    {
        self.colors[self.current_color_index]
    }

    /// Advances the cursor to the next palette entry, wrapping to the first
    /// entry after the last, and returns the entry it lands on.
    fn next_color(&mut self) -> (c: Pixel)
        requires
            old(self).wf(),
        ensures
            final(self).wf(),
            *final(self) == (Glitch {
                current_color_index: final(self).current_color_index,
                ..*old(self)
            }),
            final(self).cursor_spec() == (old(self).cursor_spec() + 1) % (
            old(self).colors_spec().len() as int),
            c == final(self).colors_spec()[final(self).cursor_spec()],
    {
        let len = self.colors.len();
        self.current_color_index += 1;
        proof {
            if old(self).current_color_index + 1 < len {
                lemma_small_mod((old(self).current_color_index + 1) as nat, len as nat);
            } else {
                lemma_mod_self_0(len as int);
            }
        }
        if self.current_color_index < len {
            self.colors[self.current_color_index]
        } else {
            self.current_color_index = 0;
            self.colors[0]
        }
    }
}

/// Pixel `i` of a glitch frame on phase `idx` may hold the value `px`:
/// its position-indexed base palette color when it is held solid, the base
/// color faded by some level within range during the flicker window, and
/// the base color faded to off otherwise.
pub open spec fn glitch_pixel_ok(g: Glitch, idx: int, i: int, px: Pixel) -> bool {
    let base = palette_pixel(g.colors_spec(), i as nat);
    if g.is_solid(i, idx) {
        px == fade_pixel(base, 0, BRIGHTNESS_LEVELS_CNT as int)
    } else if g.in_glitch_window(idx) {
        exists|lvl: int|
            0 <= lvl < BRIGHTNESS_LEVELS_CNT && px == fade_pixel(
                base,
                lvl,
                BRIGHTNESS_LEVELS_CNT as int,
            )
    } else {
        px == fade_pixel(base, BRIGHTNESS_LEVELS_CNT - 1, BRIGHTNESS_LEVELS_CNT as int)
    }
}

/// `out` is a frame the glitch generator `g` may draw at clock value
/// `frame_index`: every pixel carries its position-indexed base palette
/// color, solid pixels at full brightness, flickering pixels at some level
/// within range during the flicker window, and odd pixels off elsewhere.
pub open spec fn glitch_rendered(g: Glitch, out: Seq<Pixel>, frame_index: int) -> bool {
    forall|i: int| #![trigger out[i]]
        0 <= i < out.len() ==> glitch_pixel_ok(g, g.phase_of(frame_index), i, out[i])
}

impl Glitch {
    /// Renders one frame onto the assigned slice for the given clock value.
    ///
    /// The palette cursor is reset first, so base colors are a pure
    /// function of pixel position. The brightness level of each pixel is 0
    /// (solid) for even pixels and during the hold windows, drawn at random
    /// below `BRIGHTNESS_LEVELS_CNT` for odd pixels during the flicker
    /// window, and the darkest level otherwise; the pixel is the base color
    /// faded toward off by that level.
    pub fn render_frame(&mut self, canvas: &mut Vec<Pixel>, frame_index: usize)
        requires
            old(self).wf(),
        ensures
            final(self).wf(),
            final(self).colors_spec() == old(self).colors_spec(),
            final(self).same_phases(*old(self)),
            final(canvas)@.len() == old(canvas)@.len(),
            glitch_rendered(*old(self), final(canvas)@, frame_index as int),
    {
        // consistent color assignment across frames: reset the cursor
        self.current_color_index = 0;
        proof {
            lemma_small_mod(0, old(self).colors_spec().len());
        }
        let idx = frame_index % self.period;
        let n = canvas.len();
        let mut i: usize = 0;
        while i < n
            invariant
                self.wf(),
                self.colors_spec() == old(self).colors_spec(),
                self.same_phases(*old(self)),
                self.period == old(self).period,
                self.hold_end == old(self).hold_end,
                self.second_hold_start == old(self).second_hold_start,
                self.second_hold_end == old(self).second_hold_end,
                self.glitch_start == old(self).glitch_start,
                self.glitch_end == old(self).glitch_end,
                canvas@.len() == n,
                i <= n,
                idx == old(self).phase_of(frame_index as int),
                self.cursor_spec() == cursor_steps(i as nat) as int % (
                self.colors_spec().len() as int),
                forall|j: int| #![trigger canvas@[j]]
                    0 <= j < i ==> glitch_pixel_ok(*old(self), idx as int, j, canvas@[j]),
            decreases n - i,
        {
            let ghost len = self.colors_spec().len() as int;
            let ghost steps: int = cursor_steps(i as nat) as int;

            let base = if i % 3 == 0 || i % 5 == 0 {
                let c = self.current_color();
                assert(cursor_steps((i + 1) as nat) == steps);
                c
            } else {
                let c = self.next_color();
                proof {
                    lemma_add_mod_noop(steps, 1, len);
                    if len == 1 {
                        lemma_mod_self_0(1int);
                    } else {
                        lemma_small_mod(1nat, len as nat);
                    }
                    assert(cursor_steps((i + 1) as nat) == steps + 1);
                }
                c
            };
            assert(base == palette_pixel(old(self).colors_spec(), i as nat));

            // 0 (the base color) is the brightest; the last level is off
            let brightness: usize = if i % 2 == 0  // even-numbered pixels are unwavering
            // all pixels are solid at the start of the cycle, and again
            // after a short stretch of glitching
             || idx < self.hold_end || (self.second_hold_start < idx && idx
                <= self.second_hold_end) {
                0
            } else if self.glitch_start <= idx && idx < self.glitch_end {
                // randomizing the brightness of odd pixels every frame in
                // this window creates the glitching effect
                sample_below(&mut self.rng, BRIGHTNESS_LEVELS_CNT)
            } else {
                // the odd pixels are off at all other times
                BRIGHTNESS_LEVELS_CNT - 1
            };

            let p = fade_toward_off(&base, brightness, BRIGHTNESS_LEVELS_CNT);
            canvas.set(i, p);
            proof {
                let basep = palette_pixel(old(self).colors_spec(), i as nat);
                if !old(self).is_solid(i as int, idx as int) && old(self).in_glitch_window(
                    idx as int,
                ) {
                    assert(0 <= brightness < BRIGHTNESS_LEVELS_CNT && canvas@[i as int]
                        == fade_pixel(basep, brightness as int, BRIGHTNESS_LEVELS_CNT as int));
                }
                assert(glitch_pixel_ok(*old(self), idx as int, i as int, canvas@[i as int]));
            }
            i += 1;
        }
    }
}

/// Glitch determinism outside the random window: two generators with the
/// same palette and the same phase layout draw, at the same clock value,
/// identical frames whenever that value lies outside the flicker window —
/// whatever their random states — and even within the flicker window they
/// can differ only on pixels that are not held solid (the odd-indexed,
/// glitch-eligible ones). With `g1 == g2` this is also the idempotence of
/// the effect outside the flicker window.
pub proof fn lemma_glitch_determinism(
    g1: Glitch,
    g2: Glitch,
    out1: Seq<Pixel>,
    out2: Seq<Pixel>,
    frame_index: int,
)
    requires
        g1.colors_spec() == g2.colors_spec(),
        g1.same_phases(g2),
        glitch_rendered(g1, out1, frame_index),
        glitch_rendered(g2, out2, frame_index),
        out1.len() == out2.len(),
    ensures
        !g1.in_glitch_window(g1.phase_of(frame_index)) ==> out1 == out2,
        forall|i: int|
            0 <= i < out1.len() && g1.is_solid(i, g1.phase_of(frame_index)) ==> out1[i] == out2[i],
{
    let idx = g1.phase_of(frame_index);
    assert forall|i: int|
        0 <= i < out1.len() && g1.is_solid(i, idx) implies out1[i] == out2[i] by {
        assert(g2.is_solid(i, idx));
    }
    if !g1.in_glitch_window(idx) {
        assert forall|i: int| 0 <= i < out1.len() implies out1[i] == out2[i] by {
            assert(!g2.in_glitch_window(idx));
        }
        assert(out1 =~= out2);
    }
}

} // verus!
