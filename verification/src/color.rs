use vstd::prelude::*;
use vstd::arithmetic::div_mod::lemma_div_by_multiple;
use vstd::arithmetic::div_mod::lemma_div_is_ordered;
use vstd::arithmetic::div_mod::lemma_div_multiples_vanish_fancy;
use vstd::arithmetic::div_mod::lemma_div_nonincreasing;
use vstd::arithmetic::div_mod::lemma_mod_bound;
use vstd::arithmetic::div_mod::lemma_mod_multiples_basic;
use vstd::arithmetic::mul::lemma_mul_inequality;

verus! {

/// The blended value of one channel, `num / den` of the way from `from` to
/// `to`, over the mathematical integers.
///
/// Ascending blends round the travelled distance down and descending blends
/// round it up, so the sequence of blended values never reaches the target
/// value early in either direction. A result outside the 8-bit channel range
/// (possible only when `num > den`) saturates at the range's bounds.
pub open spec fn blended_channel(from: int, to: int, num: int, den: int) -> int
    recommends
        0 <= from <= 255,
        0 <= to <= 255,
        0 <= num,
        0 < den,
{
    if from <= to {
        let v = from + num * (to - from) / den;
        if v > 255 {
            255
        } else {
            v
        }
    } else {
        let v = from - (num * (from - to) + den - 1) / den;
        if v < 0 {
            0
        } else {
            v
        }
    }
}

/// The color `num / den` of the way from `from` to `to`: each channel is
/// blended independently, with no cross-channel coupling.
pub open spec fn blend_spec(from: Color, to: Color, num: int, den: int) -> Color {
    Color {
        red: blended_channel(from.red as int, to.red as int, num, den) as u8,
        green: blended_channel(from.green as int, to.green as int, num, den) as u8,
        blue: blended_channel(from.blue as int, to.blue as int, num, den) as u8,
    }
}

/// What `Color::step` returns: `from` when the step budget is zero (no
/// interpolation), otherwise the blend `frame / frames_per_color` of the way
/// from `from` to `to`.
pub open spec fn step_spec(from: Color, to: Color, frame: int, frames_per_color: int) -> Color {
    if frames_per_color == 0 {
        from
    } else {
        blend_spec(from, to, frame, frames_per_color)
    }
}

/// A palette handed over as a sequence of borrows, as a sequence of the
/// colors themselves.
pub open spec fn palette_of(colors: Seq<&Color>) -> Seq<Color> {
    colors.map_values(|c: &Color| *c)
}

/// The color of the palette-driven cycle at step `frame`.
///
/// A single-entry palette, or a zero step budget, yields the first entry of
/// the selected segment with no interpolation. Otherwise the palette is
/// cyclic: entry `frame / frames_per_color mod len` blends toward the entry
/// after it, the last entry wrapping back to the first, and the blend is
/// `frame mod frames_per_color` of the way across the segment.
pub open spec fn color_at_spec(palette: Seq<Color>, frame: int, frames_per_color: int) -> Color
    recommends
        palette.len() > 0,
        0 <= frame,
        0 <= frames_per_color,
{
    if palette.len() == 1 || frames_per_color == 0 {
        palette[0]
    } else {
        let n = palette.len() as int;
        let from = frame / frames_per_color % n;
        let to = (from + 1) % n;
        blend_spec(palette[from], palette[to], frame % frames_per_color, frames_per_color)
    }
}

/// The one error of the library: a palette with no entries was handed to
/// `Color::color_at`, a caller programming error rather than a condition to
/// recover from.
#[derive(Clone, Copy, Debug, PartialEq, Eq, Structural)]
pub struct InvalidPalette;

/// One RGB color: three independent 8-bit channel intensities.
///
/// A value type with no identity beyond its components; equality is
/// component-wise, and every operation yields a new value.
#[derive(Clone, Copy, Debug, PartialEq, Eq, Structural)]
pub struct Color {
    pub red: u8,
    pub green: u8,
    pub blue: u8,
}

impl Color {
    /// Interpolates between every adjacent pair of colors in
    /// `frames_per_color` frames.
    ///
    /// It takes `frames_per_color` frames to interpolate from one color to
    /// the next, and the last color interpolates back to the first in the
    /// same number of frames, so the palette is a closed loop. The palette
    /// must not be empty; `color_at` is the checked entry point.
    pub fn interpolate_linear(colors: &[&Color], frame: usize, frames_per_color: usize) -> (c:
        Color)
        requires
            colors@.len() > 0,
        ensures
            c == color_at_spec(palette_of(colors@), frame as int, frames_per_color as int),
    {
        let num_colors = colors.len();
        if num_colors == 1 || frames_per_color == 0 {
            return *colors[0];
        }
        let from = frame / frames_per_color % num_colors;
        let to = (from + 1) % num_colors;
        Color::step(colors[from], colors[to], frame % frames_per_color, frames_per_color)
    }

    /// Computes the color of the cycle at step `frame`, rejecting an empty
    /// palette with `InvalidPalette` instead of a precondition.
    pub fn color_at(colors: &[&Color], frame: usize, frames_per_color: usize) -> (r: Result<
        Color,
        InvalidPalette,
    >)
        ensures
            r is Err <==> colors@.len() == 0,
            colors@.len() > 0 ==> r == Ok::<Color, InvalidPalette>(
                color_at_spec(palette_of(colors@), frame as int, frames_per_color as int),
            ),
    {
        if colors.len() == 0 {
            Err(InvalidPalette)
        } else {
            Ok(Color::interpolate_linear(colors, frame, frames_per_color))
        }
    }

    /// Returns the color with values `frame` of `frames_per_color` between
    /// `from` and `to`.
    ///
    /// A `frames_per_color` of zero means "no interpolation" and returns
    /// `from` unchanged, without dividing.
    pub fn step(from: &Color, to: &Color, frame: usize, frames_per_color: usize) -> (c: Color)
        ensures
            c == step_spec(*from, *to, frame as int, frames_per_color as int),
    {
        if frames_per_color == 0 {
            return *from;
        }
        Color {
            red: Color::val_between(from.red, to.red, frame, frames_per_color),
            green: Color::val_between(from.green, to.green, frame, frames_per_color),
            blue: Color::val_between(from.blue, to.blue, frame, frames_per_color),
        }
    }

    /// Returns the value `frame` of `frames_per_color` between `from` and `to`.
    ///
    /// A fraction of 0 is `from`; a fraction of 1 (that is, `frame` equal to
    /// `frames_per_color`) is `to`; anything in between is the linear blend,
    /// rounded down when ascending and up when descending.
    fn val_between(from: u8, to: u8, frame: usize, frames_per_color: usize) -> (v: u8)
        requires
            frames_per_color > 0,
        ensures
            v == blended_channel(from as int, to as int, frame as int, frames_per_color as int),
    {
        let num = frame as u128;
        let den = frames_per_color as u128;
        proof {
            assert(num * 255 <= 0xFFFF_FFFF_FFFF_FFFFu128 * 255) by (nonlinear_arith)
                requires
                    num <= 0xFFFF_FFFF_FFFF_FFFFu128,
            ;
        }
        if from <= to {
            let span = (to - from) as u128;
            proof {
                assert(num * span <= num * 255) by (nonlinear_arith)
                    requires
                        span <= 255,
                        num >= 0,
                ;
            }
            let delta = num * span / den;
            proof {
                vstd::arithmetic::div_mod::lemma_div_nonincreasing(
                    (num * span) as int,
                    den as int,
                );
            }
            let v = from as u128 + delta;
            if v > 255 {
                255
            } else {
                v as u8
            }
        } else {
            let span = (from - to) as u128;
            proof {
                assert(num * span <= num * 255) by (nonlinear_arith)
                    requires
                        span <= 255,
                        num >= 0,
                ;
            }
            let ceil_delta = (num * span + (den - 1)) / den;
            if ceil_delta >= from as u128 {
                0
            } else {
                (from as u128 - ceil_delta) as u8
            }
        }
    }

    /// Returns values as a Vec<u8> of length 3, in red, green, blue order.
    pub fn values(&self) -> (v: Vec<u8>)
        ensures
            v@ == seq![self.red, self.green, self.blue],
    {
        let mut v: Vec<u8> = Vec::new();
        v.push(self.red);
        v.push(self.green);
        v.push(self.blue);
        proof {
            assert(v@ =~= seq![self.red, self.green, self.blue]);
        }
        v
    }
}

/// A channel blend at fraction 0 is exactly `from`, and a blend at fraction
/// 1 (`num == den`) is exactly `to`: neither rounding direction drifts at a
/// segment boundary.
pub proof fn lemma_blend_channel_endpoints(from: int, to: int, den: int)
    requires
        0 <= from <= 255,
        0 <= to <= 255,
        0 < den,
    ensures
        blended_channel(from, to, 0, den) == from,
        blended_channel(from, to, den, den) == to,
{
    lemma_div_multiples_vanish_fancy(0, 0, den);
    lemma_div_multiples_vanish_fancy(0, den - 1, den);
    if from <= to {
        lemma_div_by_multiple(to - from, den);
    } else {
        lemma_div_multiples_vanish_fancy(from - to, den - 1, den);
    }
}

/// For an ascending channel pair (`from <= to`) the blended value is
/// non-decreasing in the fraction, and for a descending pair it is
/// non-increasing: a ramp moves through a segment monotonically.
pub proof fn lemma_blend_channel_monotonic(from: int, to: int, num1: int, num2: int, den: int)
    requires
        0 <= from <= 255,
        0 <= to <= 255,
        0 <= num1 <= num2,
        0 < den,
    ensures
        from <= to ==> blended_channel(from, to, num1, den) <= blended_channel(
            from,
            to,
            num2,
            den,
        ),
        to <= from ==> blended_channel(from, to, num2, den) <= blended_channel(
            from,
            to,
            num1,
            den,
        ),
{
    if from <= to {
        let span = to - from;
        lemma_mul_inequality(num1, num2, span);
        lemma_div_is_ordered(num1 * span, num2 * span, den);
    } else {
        let span = from - to;
        lemma_mul_inequality(num1, num2, span);
        lemma_div_is_ordered(num1 * span + den - 1, num2 * span + den - 1, den);
    }
}

/// A single-entry palette is degenerate: the cycle is that constant color at
/// every step and for every step budget, including zero.
pub proof fn lemma_single_color_constant(palette: Seq<Color>, frame: int, frames_per_color: int)
    requires
        palette.len() == 1,
    ensures
        color_at_spec(palette, frame, frames_per_color) == palette[0],
{
}

/// A step budget of zero means "no interpolation": the cycle returns the
/// "from" entry of the selected segment, with no division.
pub proof fn lemma_zero_frames_per_color(palette: Seq<Color>, frame: int)
    requires
        palette.len() > 0,
    ensures
        color_at_spec(palette, frame, 0) == palette[0],
{
}

/// Endpoint exactness: at step `k * frames_per_color` the cycle sits exactly
/// on palette entry `k mod len`, with no rounding drift at any segment
/// boundary.
pub proof fn lemma_endpoint_exact(palette: Seq<Color>, k: int, frames_per_color: int)
    requires
        palette.len() > 0,
        0 <= k,
        0 < frames_per_color,
    ensures
        color_at_spec(palette, k * frames_per_color, frames_per_color) == palette[k % (
        palette.len() as int)],
{
    let n = palette.len() as int;
    lemma_mod_bound(k, n);
    if palette.len() > 1 {
        let den = frames_per_color;
        lemma_div_by_multiple(k, den);
        lemma_mod_multiples_basic(k, den);
        let idx = k % n;
        lemma_mod_bound(idx + 1, n);
        let from = palette[idx];
        let to = palette[(idx + 1) % n];
        lemma_blend_channel_endpoints(from.red as int, to.red as int, den);
        lemma_blend_channel_endpoints(from.green as int, to.green as int, den);
        lemma_blend_channel_endpoints(from.blue as int, to.blue as int, den);
        assert(blend_spec(from, to, 0, den) == from);
    }
}

} // verus!
