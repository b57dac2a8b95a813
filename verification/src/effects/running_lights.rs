//! The chase generator ("running lights"): a bright head pixel advances one
//! slot per cycle through its assigned range, trailing a monotonically
//! dimming tail. Two construction-time policy bits choose the traversal
//! direction and whether the head wraps immediately or must fully exit the
//! range before the pattern restarts.

use crate::pixel::{off, Pixel};
use crate::tick::wrap_next;
use vstd::arithmetic::div_mod::{lemma_basic_div, lemma_fundamental_div_mod, lemma_mod_bound};
use vstd::prelude::*;

verus! {

/// The brightness of a tail pixel `k` slots behind the head: each channel is
/// first divided by `tail + 1` (integer division) and then scaled by the
/// remaining distance, so brightness falls with distance and only the head
/// is at 100%.
pub open spec fn dim_channel(c: u8, k: int, tail: int) -> u8 {
    ((c as int / (tail + 1)) * (tail + 1 - k)) as u8
}

/// The color of a tail pixel `k` slots behind the head.
pub open spec fn dim_pixel(color: Pixel, k: int, tail: int) -> Pixel {
    Pixel {
        r: dim_channel(color.r, k, tail),
        g: dim_channel(color.g, k, tail),
        b: dim_channel(color.b, k, tail),
    }
}

/// How many slots pixel `i` lies behind the head. Under wrap-immediately
/// (`must_exit == false`) the distance wraps around the range; under
/// must-exit-before-restart it is the plain difference, which is negative
/// for pixels ahead of the head.
pub open spec fn steps_behind(head: int, i: int, len: int, must_exit: bool) -> int {
    if must_exit {
        head - i
    } else if i <= head {
        head - i
    } else {
        head + len - i
    }
}

/// The pre-reversal color of pixel `i` once the head and the tail offsets
/// `1..upto` have been drawn over a cleared range.
pub open spec fn chase_pixel_upto(
    color: Pixel,
    must_exit: bool,
    tail: int,
    head: int,
    len: int,
    upto: int,
    i: int,
) -> Pixel {
    let k = steps_behind(head, i, len, must_exit);
    if k == 0 {
        color
    } else if 1 <= k < upto && k <= tail {
        dim_pixel(color, k, tail)
    } else {
        off()
    }
}

/// The pre-reversal color of pixel `i` of a full chase frame: the head at
/// full brightness, a dimming tail of `tail` slots behind it, everything
/// else off. Under must-exit-before-restart the head may stand past the
/// visible range, in which case only the part of the tail that is still
/// inside the range shows.
pub open spec fn chase_pixel(
    color: Pixel,
    must_exit: bool,
    tail: int,
    head: int,
    len: int,
    i: int,
) -> Pixel {
    chase_pixel_upto(color, must_exit, tail, head, len, tail + 1, i)
}

/// The number of frames in one cycle of the chase: the range length, plus
/// the tail length when the tail must exit before the pattern restarts.
pub open spec fn chase_period(must_exit: bool, tail: int, len: int) -> int {
    if must_exit {
        len + tail
    } else {
        len
    }
}

/// `out` is exactly the frame a chase in state (`color`, `must_exit`,
/// `tail`, `head`, `reverse`) draws over a range of `out.len()` pixels:
/// the plain frame, written back-to-front when `reverse` is set.
pub open spec fn chase_rendered(
    color: Pixel,
    must_exit: bool,
    tail: int,
    head: int,
    reverse: bool,
    out: Seq<Pixel>,
) -> bool {
    forall|i: int|
        0 <= i < out.len() ==> out[i] == (if reverse {
            chase_pixel(color, must_exit, tail, head, out.len() as int, out.len() - 1 - i)
        } else {
            chase_pixel(color, must_exit, tail, head, out.len() as int, i)
        })
}

/// The dimmed value of a channel is between zero and the channel itself,
/// so the scaled multiply can never overflow.
pub proof fn lemma_dim_channel_bounds(c: u8, k: int, tail: int)
    requires
        1 <= k <= tail,
        tail <= 254,
    ensures
        0 <= (c as int / (tail + 1)) * (tail + 1 - k) <= c,
        dim_channel(c, k, tail) == (c as int / (tail + 1)) * (tail + 1 - k),
{
    let t1 = tail + 1;
    let q = c as int / t1;
    let r = c as int % t1;
    lemma_fundamental_div_mod(c as int, t1);
    lemma_mod_bound(c as int, t1);
    assert(0 <= q * (t1 - k) <= c) by (nonlinear_arith)
        requires
            c as int == t1 * q + r,
            0 <= r < t1,
            c >= 0,
            1 <= k,
            k <= t1 - 1,
            t1 >= 2,
    ;
}

/// A tail pixel is strictly darker than the head in every channel that is
/// lit at all.
pub proof fn lemma_dim_channel_below_head(c: u8, k: int, tail: int)
    requires
        1 <= k <= tail,
        tail <= 254,
        c >= 1,
    ensures
        dim_channel(c, k, tail) < c,
{
    let t1 = tail + 1;
    let q = c as int / t1;
    let r = c as int % t1;
    lemma_fundamental_div_mod(c as int, t1);
    lemma_mod_bound(c as int, t1);
    lemma_dim_channel_bounds(c, k, tail);
    assert(q * (t1 - k) < c) by (nonlinear_arith)
        requires
            c as int == t1 * q + r,
            0 <= r < t1,
            1 <= k,
            k <= t1 - 1,
            t1 >= 2,
            c >= 1,
    ;
}

/// Tail brightness never rises with distance from the head, and falls
/// strictly in every channel whose value is at least `tail + 1`.
pub proof fn lemma_dim_channel_monotone(c: u8, k: int, tail: int)
    requires
        1 <= k < tail,
        tail <= 254,
    ensures
        dim_channel(c, k + 1, tail) <= dim_channel(c, k, tail),
        c >= tail + 1 ==> dim_channel(c, k + 1, tail) < dim_channel(c, k, tail),
{
    let t1 = tail + 1;
    let q = c as int / t1;
    lemma_dim_channel_bounds(c, k, tail);
    lemma_dim_channel_bounds(c, k + 1, tail);
    assert(q * (t1 - (k + 1)) == q * (t1 - k) - q) by (nonlinear_arith);
    if c >= t1 {
        let r = c as int % t1;
        lemma_fundamental_div_mod(c as int, t1);
        lemma_mod_bound(c as int, t1);
        assert(q >= 1) by (nonlinear_arith)
            requires
                c as int == t1 * q + r,
                0 <= r < t1,
                c >= t1,
                t1 >= 2,
        ;
    }
}

/// A chase pattern through an assigned pixel range: one bright head pixel
/// dragging a tail of diminishing brightness, with fixed color, tail length
/// and policy bits, and a head position that advances once per render call.
pub struct RunningLights {
    color: Pixel,
    tail_must_exit_before_restart: bool,
    run_in_reverse: bool,
    color_at_terminus: Pixel,
    head_position: usize,
    tail_length: usize,
}

impl RunningLights {
    /// The color of the head pixel.
    pub closed spec fn color_spec(self) -> Pixel {
        self.color
    }

    /// Whether the tail must fully leave the range before the pattern
    /// restarts (otherwise the head wraps immediately and appears to chase
    /// its own tail).
    pub closed spec fn must_exit_spec(self) -> bool {
        self.tail_must_exit_before_restart
    }

    /// Whether the range is traversed in reverse.
    pub closed spec fn reverse_spec(self) -> bool {
        self.run_in_reverse
    }

    /// The color last written to the far end of the range, before any
    /// reversal, cached for composite effects.
    pub closed spec fn terminus_spec(self) -> Pixel {
        self.color_at_terminus
    }

    /// The head position on the (possibly virtually extended) timeline.
    pub closed spec fn head_spec(self) -> int {
        self.head_position as int
    }

    /// The tail length, excluding the head.
    pub closed spec fn tail_spec(self) -> int {
        self.tail_length as int
    }

    /// The tail and the head together fit in an 8-bit brightness divisor.
    pub open spec fn wf(self) -> bool {
        self.tail_spec() <= 254 && self.head_spec() >= 0
    }

    /// The chase can render a range of `len` pixels in its current state:
    /// the range is non-empty, leaves room for the tail under
    /// wrap-immediately, keeps the extended timeline within machine bounds
    /// under must-exit, and the head stands on that timeline.
    pub open spec fn fits_len(self, len: int) -> bool {
        &&& len >= 1
        &&& (!self.must_exit_spec() ==> self.tail_spec() < len)
        &&& (self.must_exit_spec() ==> len + self.tail_spec() <= usize::MAX)
        &&& self.head_spec() < chase_period(self.must_exit_spec(), self.tail_spec(), len)
    }

    /// Checks that this chase can render a range of `len` pixels.
    pub fn fits_range(&self, len: usize) -> (b: bool)
        ensures
            b == self.fits_len(len as int),
    {
        if len < 1 {
            return false;
        }
        if self.tail_must_exit_before_restart {
            if len > usize::MAX - self.tail_length {
                return false;
            }
            self.head_position < len + self.tail_length
        } else {
            self.tail_length < len && self.head_position < len
        }
    }

    /// Builds a chase with the given color, policy bits and tail length,
    /// with the head at position zero and the cached terminal color off.
    pub fn new(
        color: &Pixel,
        tail_must_exit_before_restart: bool,
        run_in_reverse: bool,
        tail_length: usize,
    ) -> (s: RunningLights)
        requires
            tail_length <= 254,
        ensures
            s.wf(),
            s.color_spec() == *color,
            s.must_exit_spec() == tail_must_exit_before_restart,
            s.reverse_spec() == run_in_reverse,
            s.terminus_spec() == off(),
            s.head_spec() == 0,
            s.tail_spec() == tail_length,
    {
        RunningLights {
            color: *color,
            color_at_terminus: Pixel::new(0, 0, 0),
            tail_must_exit_before_restart,
            head_position: 0,
            run_in_reverse,
            tail_length,
        }
    }

    /// The color last written to the far end of the range (pre-reversal),
    /// so a neighboring composed effect can align visually at the seam.
    pub fn color_at_terminus(&self) -> (c: Pixel)
        ensures
            c == self.terminus_spec(),
    {
        self.color_at_terminus
    }

    /// The brightness of a tail pixel `segments_behind_head` slots behind
    /// the head, out of `cnt_tail_pixels` tail slots.
    fn dim(&self, segments_behind_head: usize, cnt_tail_pixels: usize) -> (p: Pixel)
        requires
            1 <= segments_behind_head <= cnt_tail_pixels <= 254,
        ensures
            p == dim_pixel(self.color_spec(), segments_behind_head as int, cnt_tail_pixels as int),
    {
        proof {
            lemma_dim_channel_bounds(self.color.r, segments_behind_head as int, cnt_tail_pixels as int);
            lemma_dim_channel_bounds(self.color.g, segments_behind_head as int, cnt_tail_pixels as int);
            lemma_dim_channel_bounds(self.color.b, segments_behind_head as int, cnt_tail_pixels as int);
        }
        // add one because only the head should be at 100% brightness
        let total_pixels: u8 = (cnt_tail_pixels + 1) as u8;
        let brightness_factor: u8 = total_pixels - (segments_behind_head as u8);

        Pixel {
            r: (self.color.r / total_pixels) * brightness_factor,
            g: (self.color.g / total_pixels) * brightness_factor,
            b: (self.color.b / total_pixels) * brightness_factor,
        }
    }

    /// Renders one frame into the assigned slice and advances the head.
    ///
    /// The slice is cleared, the head is drawn where it falls inside the
    /// range, each tail slot is drawn at its dimmed brightness (wrapping
    /// around the range only under wrap-immediately), the color of the last
    /// slot is cached as the terminal color, the slice is reversed in place
    /// when the chase runs in reverse, and finally the head advances by one
    /// on a timeline of `chase_period` frames.
    pub fn mutate(&mut self, leds: &mut Vec<Pixel>)
        requires
            old(self).wf(),
            old(self).fits_len(old(leds)@.len() as int),
        ensures
            final(self).wf(),
            final(self).color_spec() == old(self).color_spec(),
            final(self).must_exit_spec() == old(self).must_exit_spec(),
            final(self).reverse_spec() == old(self).reverse_spec(),
            final(self).tail_spec() == old(self).tail_spec(),
            final(leds)@.len() == old(leds)@.len(),
            chase_rendered(
                old(self).color_spec(),
                old(self).must_exit_spec(),
                old(self).tail_spec(),
                old(self).head_spec(),
                old(self).reverse_spec(),
                final(leds)@,
            ),
            final(self).terminus_spec() == chase_pixel(
                old(self).color_spec(),
                old(self).must_exit_spec(),
                old(self).tail_spec(),
                old(self).head_spec(),
                old(leds)@.len() as int,
                old(leds)@.len() - 1,
            ),
            final(self).head_spec() == wrap_next(
                old(self).head_spec(),
                chase_period(
                    old(self).must_exit_spec(),
                    old(self).tail_spec(),
                    old(leds)@.len() as int,
                ),
            ),
    {
        let len = leds.len();
        let ghost color = self.color;
        let ghost me = self.tail_must_exit_before_restart;
        let ghost tail = self.tail_length as int;
        let ghost head = self.head_position as int;

        // default everything off; colors will be assigned relative to the head
        let mut i: usize = 0;
        while i < len
            invariant
                leds@.len() == len,
                i <= len,
                forall|j: int| 0 <= j < i ==> leds@[j] == off(),
            decreases len - i,
        {
            leds.set(i, Pixel { r: 0, g: 0, b: 0 });
            i += 1;
        }

        // the head, when it falls inside the visible range
        if self.head_position < len {
            leds.set(self.head_position, self.color);
        }
        assert(forall|j: int|
            0 <= j < len ==> leds@[j] == chase_pixel_upto(color, me, tail, head, len as int, 1, j));

        // the tail, from just behind the head outward
        let mut k: usize = 1;
        while k <= self.tail_length
            invariant
                self == old(self),
                me == self.tail_must_exit_before_restart,
                tail == self.tail_length as int,
                head == self.head_position as int,
                color == self.color,
                self.wf(),
                leds@.len() == len,
                len >= 1,
                1 <= k <= tail + 1,
                !me ==> tail < len && head < len,
                forall|j: int|
                    0 <= j < len ==> leds@[j] == chase_pixel_upto(
                        color,
                        me,
                        tail,
                        head,
                        len as int,
                        k as int,
                        j,
                    ),
            decreases tail + 1 - k,
        {
            let drawn_at: Option<usize> = if k <= self.head_position {
                let p = self.head_position - k;
                if p < len {
                    Some(p)
                } else {
                    None
                }
            } else {
                if self.tail_must_exit_before_restart {
                    None
                } else {
                    Some(len - (k - self.head_position))
                }
            };

            match drawn_at {
                Some(p) => {
                    let d = self.dim(k, self.tail_length);
                    leds.set(p, d);
                    assert(steps_behind(head, p as int, len as int, me) == k);
                    assert(forall|j: int|
                        0 <= j < len && j != p ==> steps_behind(head, j, len as int, me) != k);
                }
                None => {
                    assert(forall|j: int|
                        0 <= j < len ==> steps_behind(head, j, len as int, me) != k);
                }
            }
            k += 1;
        }
        assert(forall|j: int|
            0 <= j < len ==> leds@[j] == chase_pixel(color, me, tail, head, len as int, j));

        // cache the terminal color before any reversal
        self.color_at_terminus = leds[len - 1];

        if self.run_in_reverse {
            let ghost pre = leds@;
            let mut a: usize = 0;
            while a < len / 2
                invariant
                    leds@.len() == len,
                    len >= 1,
                    a <= len / 2,
                    pre.len() == len,
                    forall|j: int| 0 <= j < a ==> #[trigger] leds@[j] == pre[len - 1 - j],
                    forall|j: int| len - a <= j < len ==> #[trigger] leds@[j] == pre[len - 1 - j],
                    forall|j: int| a <= j < len - a ==> #[trigger] leds@[j] == pre[j],
                decreases len / 2 - a,
            {
                let tmp_front = leds[a];
                let tmp_back = leds[len - 1 - a];
                leds.set(a, tmp_back);
                leds.set(len - 1 - a, tmp_front);
                a += 1;
            }
            assert forall|j: int| 0 <= j < len implies leds@[j] == pre[len - 1 - j] by {
                let h = len as int / 2;
                if h <= j < len - h {
                    assert(len - 1 - j == j);
                }
            }
        }

        // the number of frames in the animation; longer than the range when
        // the tail must exit before the pattern restarts
        let frame_cnt = if self.tail_must_exit_before_restart {
            len + self.tail_length
        } else {
            len
        };

        // advance the head
        if self.head_position < frame_cnt - 1 {
            self.head_position += 1;
        } else {
            self.head_position = 0;
        }
    }
}

/// Head/tail invariant of a chase frame under the wrap-immediately policy:
/// the head is the only pixel at 100% brightness (for a color that is lit at
/// all), tail brightness never rises with distance behind the head and falls
/// strictly in every channel of value at least `tail + 1`, and every pixel
/// farther behind the head than the tail length is off.
pub proof fn lemma_chase_head_tail_invariant(color: Pixel, tail: int, head: int, len: int)
    requires
        0 <= head < len,
        0 <= tail <= 254,
        tail < len,
        !color.is_off(),
    ensures
        chase_pixel(color, false, tail, head, len, head) == color,
        forall|i: int|
            0 <= i < len && i != head ==> #[trigger] chase_pixel(color, false, tail, head, len, i)
                != color,
        forall|k: int|
            2 <= k <= tail ==> #[trigger] dim_channel(color.r, k, tail) <= dim_channel(
                color.r,
                k - 1,
                tail,
            ) && dim_channel(color.g, k, tail) <= dim_channel(color.g, k - 1, tail)
                && dim_channel(color.b, k, tail) <= dim_channel(color.b, k - 1, tail),
        forall|k: int|
            2 <= k <= tail && color.r >= tail + 1 ==> #[trigger] dim_channel(color.r, k, tail)
                < dim_channel(color.r, k - 1, tail),
        forall|k: int|
            2 <= k <= tail && color.g >= tail + 1 ==> #[trigger] dim_channel(color.g, k, tail)
                < dim_channel(color.g, k - 1, tail),
        forall|k: int|
            2 <= k <= tail && color.b >= tail + 1 ==> #[trigger] dim_channel(color.b, k, tail)
                < dim_channel(color.b, k - 1, tail),
        forall|i: int|
            0 <= i < len && steps_behind(head, i, len, false) > tail ==> #[trigger] chase_pixel(
                color,
                false,
                tail,
                head,
                len,
                i,
            ) == off(),
{
    assert forall|i: int|
        0 <= i < len && i != head implies #[trigger] chase_pixel(color, false, tail, head, len, i)
        != color by {
        let k = steps_behind(head, i, len, false);
        assert(1 <= k < len);
        if k <= tail {
            if color.r >= 1 {
                lemma_dim_channel_below_head(color.r, k, tail);
            }
            if color.g >= 1 {
                lemma_dim_channel_below_head(color.g, k, tail);
            }
            if color.b >= 1 {
                lemma_dim_channel_below_head(color.b, k, tail);
            }
        }
    }
    assert forall|k: int| 2 <= k <= tail implies #[trigger] dim_channel(color.r, k, tail)
        <= dim_channel(color.r, k - 1, tail) && dim_channel(color.g, k, tail) <= dim_channel(
        color.g,
        k - 1,
        tail,
    ) && dim_channel(color.b, k, tail) <= dim_channel(color.b, k - 1, tail) by {
        lemma_dim_channel_monotone(color.r, k - 1, tail);
        lemma_dim_channel_monotone(color.g, k - 1, tail);
        lemma_dim_channel_monotone(color.b, k - 1, tail);
    }
    assert forall|k: int|
        2 <= k <= tail && color.r >= tail + 1 implies #[trigger] dim_channel(color.r, k, tail)
        < dim_channel(color.r, k - 1, tail) by {
        lemma_dim_channel_monotone(color.r, k - 1, tail);
    }
    assert forall|k: int|
        2 <= k <= tail && color.g >= tail + 1 implies #[trigger] dim_channel(color.g, k, tail)
        < dim_channel(color.g, k - 1, tail) by {
        lemma_dim_channel_monotone(color.g, k - 1, tail);
    }
    assert forall|k: int|
        2 <= k <= tail && color.b >= tail + 1 implies #[trigger] dim_channel(color.b, k, tail)
        < dim_channel(color.b, k - 1, tail) by {
        lemma_dim_channel_monotone(color.b, k - 1, tail);
    }
}

/// Period correctness of the chase head: starting from zero, the head reads
/// `n % chase_period` after `n` render calls, so under the
/// must-exit-before-restart policy it returns to zero exactly every
/// `len + tail` calls.
pub proof fn lemma_chase_period(n: nat, must_exit: bool, tail: int, len: int)
    requires
        len >= 1,
        0 <= tail,
    ensures
        crate::tick::wrap_after(n, chase_period(must_exit, tail, len)) == n as int % chase_period(
            must_exit,
            tail,
            len,
        ),
        crate::tick::wrap_after(n, chase_period(must_exit, tail, len)) == 0 <==> n as int
            % chase_period(must_exit, tail, len) == 0,
{
    crate::tick::lemma_wrap_after_mod(n, chase_period(must_exit, tail, len));
}

/// The last frame of a must-exit cycle (head at `len + tail - 1`): every
/// visible pixel except possibly the far-end slot `len - 1` is off; that
/// slot shows the dimmest tail value, and is itself off exactly when every
/// channel of the color is smaller than `tail + 1` (a brighter color's tail
/// end is still crossing that slot on the cycle's last frame).
pub proof fn lemma_chase_exit_frame(color: Pixel, tail: int, len: int)
    requires
        len >= 1,
        1 <= tail <= 254,
    ensures
        forall|i: int|
            0 <= i < len - 1 ==> #[trigger] chase_pixel(color, true, tail, len + tail - 1, len, i)
                == off(),
        chase_pixel(color, true, tail, len + tail - 1, len, len - 1) == dim_pixel(
            color,
            tail,
            tail,
        ),
        (color.r < tail + 1 && color.g < tail + 1 && color.b < tail + 1) ==> chase_pixel(
            color,
            true,
            tail,
            len + tail - 1,
            len,
            len - 1,
        ) == off(),
{
    if color.r < tail + 1 && color.g < tail + 1 && color.b < tail + 1 {
        lemma_basic_div(color.r as int, tail + 1);
        lemma_basic_div(color.g as int, tail + 1);
        lemma_basic_div(color.b as int, tail + 1);
        assert forall|c: u8| c < tail + 1 implies dim_channel(c, tail, tail) == 0 by {
            lemma_basic_div(c as int, tail + 1);
            assert((c as int / (tail + 1)) * (tail + 1 - tail) == 0) by (nonlinear_arith)
                requires
                    c as int / (tail + 1) == 0,
            ;
        }
    }
}

/// Idempotence of the chase: the frame is a pure function of the generator
/// state and the range length, so any two renders from the same state over
/// ranges of the same length are identical, whatever the buffers held
/// before.
pub proof fn lemma_chase_idempotent(
    color: Pixel,
    must_exit: bool,
    tail: int,
    head: int,
    reverse: bool,
    out1: Seq<Pixel>,
    out2: Seq<Pixel>,
)
    requires
        chase_rendered(color, must_exit, tail, head, reverse, out1),
        chase_rendered(color, must_exit, tail, head, reverse, out2),
        out1.len() == out2.len(),
    ensures
        out1 == out2,
{
    assert(out1 =~= out2);
}

} // verus!
