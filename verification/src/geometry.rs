//! Fixed-point normalized coordinates and pixel-space conversions.
//!
//! A control point is stored in a resolution-independent normalized space:
//! its x coordinate scales with the window width and its y coordinate scales
//! with the window height and carries an inverted sign (it grows upward).
//! Normalized values are fixed-point numbers with [`SCALE`] ticks to the
//! unit, so all conversions are exact integer arithmetic with
//! round-to-nearest divisions.

use vstd::arithmetic::div_mod::lemma_div_is_ordered;
use vstd::arithmetic::div_mod::lemma_fundamental_div_mod;
use vstd::arithmetic::div_mod::lemma_fundamental_div_mod_converse;
use vstd::arithmetic::div_mod::lemma_mod_bound;
use vstd::arithmetic::mul::lemma_mul_inequality;
use vstd::prelude::*;

verus! {

/// Number of fixed-point ticks in one unit of normalized space.
pub const SCALE: u32 = 65536;

/// Half of [`SCALE`], the bias of a round-to-nearest division by `SCALE`.
pub const HALF_SCALE: u32 = 32768;

/// A control point in normalized space: `x` ticks lie in `[0, SCALE]`
/// (left edge to right edge of the window) and `y` ticks lie in
/// `[-SCALE, 0]` (top edge down to the bottom edge, sign inverted so that
/// y grows upward).
#[derive(Clone, Copy, Debug, PartialEq, Eq, Structural)]
pub struct ControlPoint {
    pub x: u32,
    pub y: i32,
}

impl ControlPoint {
    /// The point lies inside the unit square of normalized space.
    pub open spec fn is_normalized(self) -> bool {
        self.x <= SCALE && -(SCALE as int) <= self.y <= 0
    }

    /// Magnitude of the sign-inverted y coordinate, in ticks.
    pub open spec fn y_mag(self) -> int {
        -(self.y as int)
    }
}

/// The normalized tick value of pixel coordinate `px` inside a span of
/// `span` pixels: `px / span` units, rounded to the nearest tick.
pub open spec fn norm_ticks(px: int, span: int) -> int {
    (px * (SCALE as int) + span / 2) / span
}

/// The pixel coordinate that normalized tick value `n` denotes inside a
/// span of `span` pixels: `n / SCALE` of the span, rounded to the nearest
/// pixel.
pub open spec fn pixel_of_ticks(n: int, span: int) -> int {
    (n * span + (HALF_SCALE as int)) / (SCALE as int)
}

/// A pixel coordinate inside its span maps to a tick value inside the unit
/// range.
pub proof fn lemma_norm_ticks_bound(px: int, span: int)
    requires
        0 <= px <= span,
        1 <= span,
    ensures
        0 <= norm_ticks(px, span) <= SCALE,
{
    let s = SCALE as int;
    lemma_mul_inequality(px, span, s);
    assert(span * s + span / 2 == s * span + span / 2) by (nonlinear_arith);
    lemma_fundamental_div_mod_converse(span * s + span / 2, span, s, span / 2);
    lemma_div_is_ordered(0, px * s + span / 2, span);
    lemma_div_is_ordered(px * s + span / 2, span * s + span / 2, span);
}

/// A tick value inside the unit range maps to a pixel coordinate inside
/// its span.
pub proof fn lemma_pixel_of_ticks_bound(n: int, span: int)
    requires
        0 <= n <= SCALE,
        1 <= span,
    ensures
        0 <= pixel_of_ticks(n, span) <= span,
{
    let s = SCALE as int;
    lemma_mul_inequality(n, s, span);
    assert(s * span == span * s) by (nonlinear_arith);
    lemma_fundamental_div_mod_converse(s * span + (HALF_SCALE as int), s, span, HALF_SCALE as int);
    lemma_div_is_ordered(0, n * span + (HALF_SCALE as int), s);
    lemma_div_is_ordered(n * span + (HALF_SCALE as int), s * span + (HALF_SCALE as int), s);
}

/// Round trip of the conversions: a pixel coordinate sent to normalized
/// ticks and back lands within one pixel of where it started, and never
/// moves toward the origin.
pub proof fn lemma_norm_round_trip(px: int, span: int)
    requires
        0 <= px <= span,
        1 <= span <= SCALE,
    ensures
        px <= pixel_of_ticks(norm_ticks(px, span), span) <= px + 1,
{
    let s = SCALE as int;
    let h = HALF_SCALE as int;
    let n = norm_ticks(px, span);
    lemma_fundamental_div_mod(px * s + span / 2, span);
    lemma_mod_bound(px * s + span / 2, span);
    let r = (px * s + span / 2) % span;
    assert(span * n == px * s + span / 2 - r);
    assert(n * span == span * n) by (nonlinear_arith);
    // `span / 2 + h - r >= 1`, because `r <= span - 1` and `span <= s = 2 * h`.
    lemma_div_is_ordered(span, s, 2);
    assert(n * span + h >= px * s + 1);
    assert(n * span + h <= px * s + span / 2 + h <= px * s + s);
    lemma_fundamental_div_mod_converse(px * s, s, px, 0);
    lemma_fundamental_div_mod_converse(px * s + s, s, px + 1, 0);
    assert(px * s + s == (px + 1) * s) by (nonlinear_arith);
    lemma_div_is_ordered(px * s, n * span + h, s);
    lemma_div_is_ordered(n * span + h, px * s + s, s);
}

/// Maps a pixel position to a normalized control point. The x coordinate
/// becomes the rounded fraction of the window width; the y coordinate
/// becomes the rounded fraction of the window height with inverted sign.
pub fn to_normalized_control_point(point: (u32, u32), window_size: (u32, u32)) -> (r: ControlPoint)
    requires
        1 <= window_size.0,
        1 <= window_size.1,
        point.0 <= window_size.0,
        point.1 <= window_size.1,
    ensures
        r.x == norm_ticks(point.0 as int, window_size.0 as int),
        r.y_mag() == norm_ticks(point.1 as int, window_size.1 as int),
        r.is_normalized(),
{
    let w = window_size.0 as u64;
    let h = window_size.1 as u64;
    proof {
        lemma_norm_ticks_bound(point.0 as int, window_size.0 as int);
        lemma_norm_ticks_bound(point.1 as int, window_size.1 as int);
    }
    let x = (point.0 as u64 * SCALE as u64 + w / 2) / w;
    let y = (point.1 as u64 * SCALE as u64 + h / 2) / h;
    ControlPoint { x: x as u32, y: -(y as i32) }
}

/// Maps a normalized control point back to the pixel position it denotes
/// inside the given window, rounded to the nearest pixel on each axis.
pub fn from_normalized_control_point(point: ControlPoint, window_size: (u32, u32)) -> (r: (
    u32,
    u32,
))
    requires
        point.is_normalized(),
        1 <= window_size.0,
        1 <= window_size.1,
    ensures
        r.0 == pixel_of_ticks(point.x as int, window_size.0 as int),
        r.1 == pixel_of_ticks(point.y_mag(), window_size.1 as int),
        r.0 <= window_size.0,
        r.1 <= window_size.1,
{
    proof {
        lemma_pixel_of_ticks_bound(point.x as int, window_size.0 as int);
        lemma_pixel_of_ticks_bound(point.y_mag(), window_size.1 as int);
    }
    let y_mag = (-point.y) as u32;
    let x = (point.x as u64 * window_size.0 as u64 + HALF_SCALE as u64) / SCALE as u64;
    let y = (y_mag as u64 * window_size.1 as u64 + HALF_SCALE as u64) / SCALE as u64;
    (x as u32, y as u32)
}

/// The open hit box of a control point whose marker has its top-left
/// corner at `corner`: the box spans `2 * radius + 1` pixels on each axis
/// and both boundaries are excluded.
pub open spec fn hit_box_contains(corner: (u32, u32), radius: u32, p: (u32, u32)) -> bool {
    &&& corner.0 < p.0 < corner.0 + 2 * radius + 1
    &&& corner.1 < p.1 < corner.1 + 2 * radius + 1
}

/// Decides whether pixel `p` falls strictly inside the hit box of a marker
/// cornered at `corner`.
pub fn hit_test(corner: (u32, u32), radius: u32, p: (u32, u32)) -> (b: bool)
    ensures
        b == hit_box_contains(corner, radius, p),
{
    let cx = corner.0 as u64;
    let cy = corner.1 as u64;
    let px = p.0 as u64;
    let py = p.1 as u64;
    let reach = 2 * (radius as u64) + 1;
    cx < px && px < cx + reach && cy < py && py < cy + reach
}

} // verus!
