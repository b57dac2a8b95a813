//! The palette cycler: maps a palette of colors onto a pixel range as a pure
//! function of pixel position, so repeated calls reproduce the same per-pixel
//! assignment regardless of intervening mutation.

use crate::pixel::Pixel;
use vstd::arithmetic::div_mod::{lemma_add_mod_noop, lemma_mod_self_0, lemma_small_mod};
use vstd::prelude::*;

verus! {

/// Positions whose index is a multiple of three or of five receive the
/// palette entry under the cursor; every other position receives the next
/// entry, advancing the cursor.
pub open spec fn holds_cursor(i: int) -> bool {
    i % 3 == 0 || i % 5 == 0
}

/// How many times the palette cursor has advanced once the first `i` pixels
/// are assigned: one advance for each position that does not hold the cursor.
pub open spec fn cursor_steps(i: nat) -> nat
    decreases i,
{
    if i == 0 {
        0
    } else {
        cursor_steps((i - 1) as nat) + (if holds_cursor(i - 1) {
            0nat
        } else {
            1nat
        })
    }
}

/// The palette slot assigned to pixel `i` by a palette of `len` entries.
/// The cursor starts at the first entry and wraps past the last, so the
/// assignment is a pure function of the position index alone.
pub open spec fn palette_index(i: nat, len: int) -> int {
    if holds_cursor(i as int) {
        cursor_steps(i) as int % len
    } else {
        (cursor_steps(i) + 1) as int % len
    }
}

/// The color assigned to pixel `i` from `colors`.
pub open spec fn palette_pixel(colors: Seq<Pixel>, i: nat) -> Pixel {
    colors[palette_index(i, colors.len() as int)]
}

/// `out` is exactly what one palette pass over `out.len()` pixels assigns.
pub open spec fn palette_rendered(colors: Seq<Pixel>, out: Seq<Pixel>) -> bool {
    forall|i: int| 0 <= i < out.len() ==> out[i] == palette_pixel(colors, i as nat)
}

/// Idempotence of the palette cycler: the per-pixel color assignment is a
/// pure function of the palette and the pixel position, so any two renders
/// of the same length from the same palette are identical, whatever the
/// buffers held before.
pub proof fn lemma_palette_idempotent(colors: Seq<Pixel>, out1: Seq<Pixel>, out2: Seq<Pixel>)
    requires
        palette_rendered(colors, out1),
        palette_rendered(colors, out2),
        out1.len() == out2.len(),
    ensures
        out1 == out2,
{
    assert(out1 =~= out2);
}

/// A fixed, ordered palette of at least two colors and a cursor into it.
/// The cursor is reset at the start of every render call, so it carries no
/// information between calls.
pub struct ColorSet {
    colors: Vec<Pixel>,
    current_color_index: usize,
}

impl ColorSet {
    /// The palette.
    pub closed spec fn colors_spec(self) -> Seq<Pixel> {
        self.colors@
    }

    /// The cursor into the palette.
    pub closed spec fn cursor_spec(self) -> int {
        self.current_color_index as int
    }

    /// The palette holds at least two colors (the effect needs contrast)
    /// and the cursor points at one of them.
    pub open spec fn wf(self) -> bool {
        self.colors_spec().len() >= 2 && 0 <= self.cursor_spec() < self.colors_spec().len()
    }

    /// Builds a cycler over the given palette with the cursor on the first
    /// entry. At least two colors are required.
    pub fn new(colors: Vec<Pixel>) -> (c: ColorSet)
        requires
            colors@.len() >= 2,
        ensures
            c.wf(),
            c.colors_spec() == colors@,
            c.cursor_spec() == 0,
    {
        ColorSet { colors, current_color_index: 0 }
    }

    /// The palette entry under the cursor.
    fn current_color(&self) -> (c: Pixel)
        requires
            self.wf(),
        ensures
            c == self.colors_spec()[self.cursor_spec()],
    {
        self.colors[self.current_color_index]
    }

    /// Advances the cursor to the next palette entry, wrapping to the first
    /// entry after the last, and returns the entry it lands on.
    fn next_color(&mut self) -> (c: Pixel)
        requires
            old(self).wf(),
        ensures
            final(self).wf(),
            final(self).colors_spec() == old(self).colors_spec(),
            final(self).cursor_spec() == (old(self).cursor_spec() + 1) % (
            old(self).colors_spec().len() as int),
            c == final(self).colors_spec()[final(self).cursor_spec()],
    {
        let len = self.colors.len();
        self.current_color_index += 1;
        proof {
            if old(self).current_color_index + 1 < len {
                lemma_small_mod((old(self).current_color_index + 1) as nat, len as nat);
            } else {
                lemma_mod_self_0(len as int);
            }
        }
        if self.current_color_index < len {
            self.colors[self.current_color_index]
        } else {
            self.current_color_index = 0;
            self.colors[0]
        }
    }

    /// Assigns palette colors to every pixel of the slice, purely by
    /// position: positions at a multiple of three or five take the entry
    /// under the cursor, the rest take the next entry. The cursor is reset
    /// first, so the outcome never depends on earlier calls.
    pub fn mutate(&mut self, leds: &mut Vec<Pixel>)
        requires
            old(self).wf(),
        ensures
            final(self).wf(),
            final(self).colors_spec() == old(self).colors_spec(),
            final(leds)@.len() == old(leds)@.len(),
            palette_rendered(old(self).colors_spec(), final(leds)@),
    {
        self.current_color_index = 0;
        proof {
            lemma_small_mod(0, old(self).colors_spec().len());
        }
        let n = leds.len();
        let mut i: usize = 0;
        while i < n
            invariant
                self.wf(),
                self.colors_spec() == old(self).colors_spec(),
                leds@.len() == n,
                i <= n,
                self.cursor_spec() == cursor_steps(i as nat) as int % (self.colors_spec().len() as int),
                forall|j: int|
                    0 <= j < i ==> leds@[j] == palette_pixel(old(self).colors_spec(), j as nat),
            decreases n - i,
        {
            let ghost len = self.colors_spec().len() as int;
            let ghost steps: int = cursor_steps(i as nat) as int;
            if i % 5 == 0 || i % 3 == 0 {
                let c = self.current_color();
                leds.set(i, c);
                assert(cursor_steps((i + 1) as nat) == steps);
            } else {
                let c = self.next_color();
                leds.set(i, c);
                proof {
                    lemma_add_mod_noop(steps as int, 1, len);
                    lemma_small_mod(1nat, len as nat);
                    assert(cursor_steps((i + 1) as nat) == steps + 1);
                    assert((steps % len + 1) % len == (steps + 1) % len);
                }
            }
            i += 1;
        }
    }
}

} // verus!
