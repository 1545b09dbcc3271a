//! Mapping raw device axis values onto normalised fixed-point values, and
//! deciding when an axis has left its deadzone.

use vstd::prelude::*;

use vstd::arithmetic::div_mod::{
    lemma_div_is_ordered, lemma_div_multiples_vanish, lemma_div_pos_is_pos,
};

use crate::gamepad::NORM_ONE;

verus! {

/// The range a device reports an axis in.
#[derive(Clone, Copy, Debug, PartialEq, Eq, Structural)]
pub struct AxisRange {
    pub min: i32,
    pub max: i32,
}

/// The range of a normalised stick value.
pub open spec fn norm_range() -> AxisRange {
    AxisRange { min: -NORM_ONE as i32, max: NORM_ONE as i32 }
}

pub open spec fn clamp(v: int, lo: int, hi: int) -> int {
    if v < lo {
        lo
    } else if v > hi {
        hi
    } else {
        v
    }
}

/// `v` clamped into `lo ..= hi`, mapped linearly so that `lo` becomes
/// `-NORM_ONE` and `hi` becomes `NORM_ONE` (rounded down), for `lo < hi`.
pub open spec fn remap_up(v: int, lo: int, hi: int) -> int {
    (clamp(v, lo, hi) - lo) * 2 * NORM_ONE / (hi - lo) - NORM_ONE
}

/// `current` mapped linearly from the range onto `-NORM_ONE ..= NORM_ONE`
/// (values outside the range are clamped to it), negated when `invert`
/// is set. A range with `min == max` gives the centre, 0.
pub open spec fn normalized_spec(current: int, range: AxisRange, invert: bool) -> int {
    let v = if range.min < range.max {
        remap_up(current, range.min as int, range.max as int)
    } else if range.min > range.max {
        -remap_up(current, range.max as int, range.min as int)
    } else {
        0
    };
    if invert {
        -v
    } else {
        v
    }
}

fn remap(v: i32, lo: i32, hi: i32) -> (r: i64)
    requires
        lo < hi,
    ensures
        r == remap_up(v as int, lo as int, hi as int),
        -NORM_ONE <= r <= NORM_ONE,
{
    let c: i64 = if v < lo {
        lo as i64
    } else if v > hi {
        hi as i64
    } else {
        v as i64
    };
    let span = hi as i64 - lo as i64;
    let off = c - lo as i64;
    assert(0 <= off * 2 * NORM_ONE <= span * 2 * NORM_ONE) by (nonlinear_arith)
        requires
            0 <= off <= span,
    ;
    assert(span * 2 * NORM_ONE <= 0x2_0000_0000 * 2 * NORM_ONE) by (nonlinear_arith)
        requires
            0 < span <= 0x2_0000_0000,
    ;
    let q = off * 2 * NORM_ONE / span;
    proof {
        let o = off as int;
        let sp = span as int;
        assert(o * 2 * NORM_ONE <= sp * (2 * NORM_ONE)) by (nonlinear_arith)
            requires
                0 <= o <= sp,
        ;
        lemma_div_is_ordered(o * 2 * NORM_ONE, sp * (2 * NORM_ONE), sp);
        lemma_div_multiples_vanish(2 * NORM_ONE, sp);
        lemma_div_pos_is_pos(o * 2 * NORM_ONE, sp);
        assert(sp * (2 * NORM_ONE) == (2 * NORM_ONE) * sp) by (nonlinear_arith);
    }
    q - NORM_ONE
}

/// Maps a raw device value onto `-NORM_ONE ..= NORM_ONE`.
pub fn normalized(current: i32, range: AxisRange, invert: bool) -> (r: i64)
    ensures
        r == normalized_spec(current as int, range, invert),
        -NORM_ONE <= r <= NORM_ONE,
{
    let v = if range.min < range.max {
        remap(current, range.min, range.max)
    } else if range.min > range.max {
        -remap(current, range.max, range.min)
    } else {
        0
    };
    if invert {
        -v
    } else {
        v
    }
}

/// Whether `current` is further than `deadzone` from the middle of the
/// range; always, when there is no deadzone.
pub open spec fn axis_active_spec(current: int, range: AxisRange, deadzone: Option<i64>) -> bool {
    match deadzone {
        None => true,
        Some(d) => {
            let off = 2 * current - range.min - range.max;
            off > 2 * d || off < -2 * d
        },
    }
}

/// Whether `current` is further than `deadzone` from the middle of the
/// range; always, when there is no deadzone.
pub fn axis_active(current: i64, range: AxisRange, deadzone: Option<i64>) -> (r: bool)
    ensures
        r == axis_active_spec(current as int, range, deadzone),
{
    match deadzone {
        None => true,
        Some(d) => {
            let off = 2 * (current as i128) - range.min as i128 - range.max as i128;
            let band = 2 * (d as i128);
            off > band || off < -band
        },
    }
}

/// A stick is active when either of its normalised axes has left the
/// deadzone.
pub open spec fn stick_active_spec(x: int, y: int, deadzone: i64) -> bool {
    axis_active_spec(x, norm_range(), Some(deadzone)) || axis_active_spec(
        y,
        norm_range(),
        Some(deadzone),
    )
}

pub fn stick_active(x: i64, y: i64, deadzone: i64) -> (r: bool)
    ensures
        r == stick_active_spec(x as int, y as int, deadzone),
{
    let range = AxisRange { min: -NORM_ONE as i32, max: NORM_ONE as i32 };
    axis_active(x, range, Some(deadzone)) || axis_active(y, range, Some(deadzone))
}

/// The fill of a single axis: a normalised value mapped onto
/// `0 ..= NORM_ONE`, half full at the centre.
pub open spec fn percent_spec(n: int) -> int {
    (n + NORM_ONE) / 2
}

pub fn percent(n: i64) -> (p: i64)
    requires
        -NORM_ONE <= n <= NORM_ONE,
    ensures
        p == percent_spec(n as int),
        0 <= p <= NORM_ONE,
{
    (n + NORM_ONE) / 2
}

/// The ends of a range map onto `-NORM_ONE` and `NORM_ONE`, and inverting
/// negates every value.
pub proof fn lemma_normalized_ends(range: AxisRange, current: int)
    requires
        range.min != range.max,
    ensures
        normalized_spec(range.min as int, range, false) == -NORM_ONE,
        normalized_spec(range.max as int, range, false) == NORM_ONE,
        normalized_spec(current, range, true) == -normalized_spec(current, range, false),
{
    let lo = if range.min < range.max { range.min as int } else { range.max as int };
    let hi = if range.min < range.max { range.max as int } else { range.min as int };
    let span = hi - lo;
    lemma_div_multiples_vanish(2 * NORM_ONE, span);
    assert(span * 2 * NORM_ONE == span * (2 * NORM_ONE)) by (nonlinear_arith);
    assert(span * (2 * NORM_ONE) == (2 * NORM_ONE) * span) by (nonlinear_arith);
}

/// With a deadzone, an axis is inactive exactly when it is within the
/// deadzone of the middle of the range; without one it is always active.
pub proof fn lemma_deadzone(current: int, range: AxisRange, d: i64)
    ensures
        !axis_active_spec(current, range, Some(d)) <==> -2 * d <= 2 * current - range.min
            - range.max <= 2 * d,
        axis_active_spec(current, range, None),
{
}

} // verus!
