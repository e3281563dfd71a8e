//! De Casteljau evaluation of a Bezier curve over normalized control points.
//!
//! Given ordered points `P0..Pn-1` and a ratio `t` (in ticks of
//! [`SCALE`]), one round of reduction replaces each adjacent pair by its
//! rounded linear interpolation `Q_i = (1 - t) * P_i + t * P_{i+1}`;
//! repeating until a single point remains yields the curve value at `t`.

use crate::geometry::ControlPoint;
use crate::geometry::HALF_SCALE;
use crate::geometry::SCALE;
use vstd::arithmetic::div_mod::lemma_div_is_ordered;
use vstd::arithmetic::div_mod::lemma_fundamental_div_mod_converse;
use vstd::arithmetic::mul::lemma_mul_inequality;
use vstd::prelude::*;

verus! {

impl View for ControlPoint {
    type V = (int, int);

    /// A control point viewed as the pair of its tick magnitudes: the x
    /// value and the sign-inverted y value, both in `[0, SCALE]`.
    open spec fn view(&self) -> (int, int) {
        (self.x as int, -(self.y as int))
    }
}

/// The tick-magnitude views of a sequence of control points.
pub open spec fn mags(s: Seq<ControlPoint>) -> Seq<(int, int)> {
    s.map_values(|p: ControlPoint| p@)
}

/// A tick-magnitude pair inside the unit square.
pub open spec fn mag_in_range(p: (int, int)) -> bool {
    0 <= p.0 <= SCALE && 0 <= p.1 <= SCALE
}

/// Linear interpolation between tick values `a` and `b` at ratio `t`
/// (in ticks), rounded to the nearest tick.
pub open spec fn lerp_ticks(a: int, b: int, t: int) -> int {
    (a * ((SCALE as int) - t) + b * t + (HALF_SCALE as int)) / (SCALE as int)
}

/// Componentwise interpolation of two tick-magnitude pairs.
pub open spec fn lerp_pair(p: (int, int), q: (int, int), t: int) -> (int, int) {
    (lerp_ticks(p.0, q.0, t), lerp_ticks(p.1, q.1, t))
}

/// One de Casteljau round: the interpolations of all adjacent pairs.
pub open spec fn reduce_once(pts: Seq<(int, int)>, t: int) -> Seq<(int, int)>
    recommends
        pts.len() >= 1,
{
    Seq::new((pts.len() - 1) as nat, |i: int| lerp_pair(pts[i], pts[i + 1], t))
}

/// The de Casteljau value of the curve through `pts` at ratio `t`:
/// reduction rounds are applied until one point remains.
pub open spec fn de_casteljau(pts: Seq<(int, int)>, t: int) -> (int, int)
    recommends
        pts.len() >= 1,
    decreases pts.len(),
{
    if pts.len() <= 1 {
        pts[0]
    } else {
        de_casteljau(reduce_once(pts, t), t)
    }
}

/// Interpolating between values of the unit range at a ratio in the unit
/// range stays inside the unit range.
pub proof fn lemma_lerp_ticks_range(a: int, b: int, t: int)
    requires
        0 <= a <= SCALE,
        0 <= b <= SCALE,
        0 <= t <= SCALE,
    ensures
        0 <= lerp_ticks(a, b, t) <= SCALE,
{
    let s = SCALE as int;
    let h = HALF_SCALE as int;
    lemma_mul_inequality(a, s, s - t);
    lemma_mul_inequality(b, s, t);
    assert(s * (s - t) + s * t == s * s) by (nonlinear_arith);
    lemma_fundamental_div_mod_converse(s * s + h, s, s, h);
    assert(a * (s - t) >= 0 && b * t >= 0) by (nonlinear_arith)
        requires
            a >= 0,
            b >= 0,
            0 <= t <= s,
    ;
    lemma_div_is_ordered(0, a * (s - t) + b * t + h, s);
    lemma_div_is_ordered(a * (s - t) + b * t + h, s * s + h, s);
}

/// At ratio 0 an interpolation returns its first operand exactly, and at
/// ratio `SCALE` its second.
pub proof fn lemma_lerp_ticks_endpoints(a: int, b: int)
    ensures
        lerp_ticks(a, b, 0) == a,
        lerp_ticks(a, b, SCALE as int) == b,
{
    let s = SCALE as int;
    let h = HALF_SCALE as int;
    assert(a * (s - 0) + b * 0 + h == a * s + h) by (nonlinear_arith);
    lemma_fundamental_div_mod_converse(a * s + h, s, a, h);
    assert(a * (s - s) + b * s + h == b * s + h) by (nonlinear_arith);
    lemma_fundamental_div_mod_converse(b * s + h, s, b, h);
}

/// Endpoint interpolation of de Casteljau's algorithm: the curve value at
/// ratio 0 is exactly the first control point, and at ratio `SCALE`
/// exactly the last one.
pub proof fn lemma_de_casteljau_endpoints(pts: Seq<(int, int)>, t: int)
    requires
        pts.len() >= 1,
        t == 0 || t == SCALE as int,
    ensures
        t == 0 ==> de_casteljau(pts, t) == pts[0],
        t == SCALE as int ==> de_casteljau(pts, t) == pts.last(),
    decreases pts.len(),
{
    if pts.len() > 1 {
        let red = reduce_once(pts, t);
        assert forall|i: int| 0 <= i < red.len() implies red[i] == (if t == 0 {
            pts[i]
        } else {
            pts[i + 1]
        }) by {
            lemma_lerp_ticks_endpoints(pts[i].0, pts[i + 1].0);
            lemma_lerp_ticks_endpoints(pts[i].1, pts[i + 1].1);
        }
        if t == 0 {
            assert(red =~= pts.take(pts.len() - 1));
        } else {
            assert(red =~= pts.skip(1));
        }
        lemma_de_casteljau_endpoints(red, t);
    }
}

/// A reduction round keeps every point inside the unit square.
pub proof fn lemma_reduce_once_in_range(pts: Seq<(int, int)>, t: int)
    requires
        pts.len() >= 1,
        forall|i: int| 0 <= i < pts.len() ==> mag_in_range(#[trigger] pts[i]),
        0 <= t <= SCALE,
    ensures
        forall|i: int|
            0 <= i < reduce_once(pts, t).len() ==> mag_in_range(#[trigger] reduce_once(pts, t)[i]),
{
    let red = reduce_once(pts, t);
    assert forall|i: int| 0 <= i < red.len() implies mag_in_range(red[i]) by {
        assert(mag_in_range(pts[i]));
        assert(mag_in_range(pts[i + 1]));
        lemma_lerp_ticks_range(pts[i].0, pts[i + 1].0, t);
        lemma_lerp_ticks_range(pts[i].1, pts[i + 1].1, t);
    }
}

/// The de Casteljau value of points inside the unit square stays inside
/// the unit square.
pub proof fn lemma_de_casteljau_in_range(pts: Seq<(int, int)>, t: int)
    requires
        pts.len() >= 1,
        forall|i: int| 0 <= i < pts.len() ==> mag_in_range(#[trigger] pts[i]),
        0 <= t <= SCALE,
    ensures
        mag_in_range(de_casteljau(pts, t)),
    decreases pts.len(),
{
    if pts.len() > 1 {
        lemma_reduce_once_in_range(pts, t);
        lemma_de_casteljau_in_range(reduce_once(pts, t), t);
    }
}

/// Interpolates two normalized control points at ratio `t` ticks, rounding
/// each coordinate to the nearest tick.
fn lerp_control_point(p: ControlPoint, q: ControlPoint, t: u32) -> (r: ControlPoint)
    requires
        p.is_normalized(),
        q.is_normalized(),
        t <= SCALE,
    ensures
        r@ == lerp_pair(p@, q@, t as int),
        r.is_normalized(),
{
    proof {
        lemma_lerp_ticks_range(p.x as int, q.x as int, t as int);
        lemma_lerp_ticks_range(p.y_mag(), q.y_mag(), t as int);
    }
    let remainder = (SCALE - t) as u64;
    let ratio = t as u64;
    let x = (p.x as u64 * remainder + q.x as u64 * ratio + HALF_SCALE as u64) / SCALE as u64;
    let y_mag = ((-p.y) as u64 * remainder + (-q.y) as u64 * ratio + HALF_SCALE as u64)
        / SCALE as u64;
    ControlPoint { x: x as u32, y: -(y_mag as i32) }
}

/// Evaluates the Bezier curve through `points` at ratio `t` ticks by de
/// Casteljau's algorithm. With exactly two points this is their plain
/// interpolation.
pub fn interpolated_point(points: &Vec<ControlPoint>, t: u32) -> (r: ControlPoint)
    requires
        points.len() >= 2,
        t <= SCALE,
        forall|i: int| 0 <= i < points@.len() ==> (#[trigger] points@[i]).is_normalized(),
    ensures
        r@ == de_casteljau(mags(points@), t as int),
        r.is_normalized(),
{
    let ghost orig = mags(points@);
    let mut buffer1: Vec<ControlPoint> = Vec::with_capacity(points.len());
    let mut idx: usize = 0;
    while idx < points.len() - 1
        invariant
            points.len() >= 2,
            t <= SCALE,
            forall|i: int| 0 <= i < points@.len() ==> (#[trigger] points@[i]).is_normalized(),
            idx <= points.len() - 1,
            buffer1@.len() == idx,
            mags(buffer1@) =~= reduce_once(mags(points@), t as int).take(idx as int),
            forall|i: int| 0 <= i < buffer1@.len() ==> (#[trigger] buffer1@[i]).is_normalized(),
        decreases points.len() - 1 - idx,
    {
        let next = lerp_control_point(points[idx], points[idx + 1], t);
        buffer1.push(next);
        idx += 1;
    }
    proof {
        assert(mags(buffer1@) =~= reduce_once(orig, t as int));
        assert(de_casteljau(mags(buffer1@), t as int) == de_casteljau(orig, t as int));
    }
    while buffer1.len() > 1
        invariant
            t <= SCALE,
            buffer1@.len() >= 1,
            de_casteljau(mags(buffer1@), t as int) == de_casteljau(orig, t as int),
            forall|i: int| 0 <= i < buffer1@.len() ==> (#[trigger] buffer1@[i]).is_normalized(),
        decreases buffer1@.len(),
    {
        let mut buffer2: Vec<ControlPoint> = Vec::with_capacity(buffer1.len());
        let mut idx2: usize = 0;
        while idx2 < buffer1.len() - 1
            invariant
                t <= SCALE,
                buffer1@.len() >= 2,
                idx2 <= buffer1.len() - 1,
                buffer2@.len() == idx2,
                mags(buffer2@) =~= reduce_once(mags(buffer1@), t as int).take(idx2 as int),
                forall|i: int| 0 <= i < buffer1@.len() ==> (#[trigger] buffer1@[i]).is_normalized(),
                forall|i: int| 0 <= i < buffer2@.len() ==> (#[trigger] buffer2@[i]).is_normalized(),
            decreases buffer1.len() - 1 - idx2,
        {
            let next = lerp_control_point(buffer1[idx2], buffer1[idx2 + 1], t);
            buffer2.push(next);
            idx2 += 1;
        }
        proof {
            assert(mags(buffer2@) =~= reduce_once(mags(buffer1@), t as int));
            assert(de_casteljau(mags(buffer2@), t as int) == de_casteljau(mags(buffer1@), t as int));
        }
        buffer1 = buffer2;
    }
    buffer1[0]
}

} // verus!
