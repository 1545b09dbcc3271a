//! One frame of the overlay as an ordered list of draw commands: clear,
//! then every button, every axis and every stick, in that order.

use vstd::prelude::*;

use crate::color::Color;
use crate::config::FillDir;
use crate::gamepad::{norm_in_range, Axis, Button, InputState, Inputs, Stick, NORM_ONE};
use crate::geometry::{Path, Point, Rect, COORD_LIMIT};
use crate::normalize::{stick_active, stick_active_spec};

verus! {

/// A drawing step; every path is drawn moved by `offset`.
#[derive(Clone, Copy, Debug, PartialEq, Eq, Structural)]
pub enum DrawCommand {
    /// Clear the canvas to transparent.
    Clear,
    FillPath { path: Path, color: Color, offset: Point },
    StrokePath { path: Path, color: Color, width: i64, offset: Point },
    FillRect { rect: Rect, color: Color },
    StrokeRect { rect: Rect, color: Color, width: i64 },
}

/// The part of an axis's rectangle drawn in the active color, for a fill of
/// `percent` out of `NORM_ONE`: the rectangle shrunk by `percent` of its
/// height or width from the edge the direction names (the bottom edge for
/// `TopToBottom`, the right edge for `LeftToRight`, the top edge for
/// `BottomToTop`, the left edge for `RightToLeft`).
pub open spec fn active_rect_spec(r: Rect, dir: FillDir, percent: int) -> Rect {
    let w = r.right - r.left;
    let h = r.bottom - r.top;
    match dir {
        FillDir::TopToBottom => Rect { bottom: (r.bottom - h * percent / NORM_ONE as int) as i64, ..r },
        FillDir::LeftToRight => Rect { right: (r.right - w * percent / NORM_ONE as int) as i64, ..r },
        FillDir::BottomToTop => Rect {
            top: (r.top + h * percent / NORM_ONE as int) as i64,
            ..r
        },
        FillDir::RightToLeft => Rect {
            left: (r.left + w * percent / NORM_ONE as int) as i64,
            ..r
        },
    }
}

proof fn lemma_scaled(len: int, p: int)
    requires
        0 <= len <= 2 * COORD_LIMIT,
        0 <= p <= NORM_ONE,
    ensures
        0 <= len * p <= 2 * COORD_LIMIT * NORM_ONE,
        0 <= len * p / NORM_ONE as int <= len,
{
    assert(0 <= len * p <= len * NORM_ONE) by (nonlinear_arith)
        requires
            0 <= len,
            0 <= p <= NORM_ONE,
    ;
    assert(len * NORM_ONE <= 2 * COORD_LIMIT * NORM_ONE) by (nonlinear_arith)
        requires
            len <= 2 * COORD_LIMIT,
    ;
    vstd::arithmetic::div_mod::lemma_div_is_ordered(len * p, len * NORM_ONE, NORM_ONE as int);
    vstd::arithmetic::div_mod::lemma_div_multiples_vanish(len, NORM_ONE as int);
    vstd::arithmetic::div_mod::lemma_div_pos_is_pos(len * p, NORM_ONE as int);
    assert(len * NORM_ONE == NORM_ONE * len) by (nonlinear_arith);
}

/// The part of an axis's rectangle drawn in the active color.
pub fn active_rect(r: Rect, dir: FillDir, percent: i64) -> (a: Rect)
    requires
        r.wf(),
        0 <= percent <= NORM_ONE,
    ensures
        a == active_rect_spec(r, dir, percent as int),
        a.wf(),
{
    let w = r.right - r.left;
    let h = r.bottom - r.top;
    proof {
        lemma_scaled(w as int, percent as int);
        lemma_scaled(h as int, percent as int);
    }
    match dir {
        FillDir::TopToBottom => Rect { bottom: r.bottom - h * percent / NORM_ONE, ..r },
        FillDir::LeftToRight => Rect { right: r.right - w * percent / NORM_ONE, ..r },
        FillDir::BottomToTop => Rect { top: r.top + h * percent / NORM_ONE, ..r },
        FillDir::RightToLeft => Rect { left: r.left + w * percent / NORM_ONE, ..r },
    }
}

/// Whether `r` is the square root of `n`, rounded down.
pub open spec fn is_floor_sqrt(n: nat, r: nat) -> bool {
    r * r <= n < (r + 1) * (r + 1)
}

/// The square root of `n`, rounded down.
pub open spec fn floor_sqrt(n: nat) -> nat {
    choose|r: nat| #[trigger] is_floor_sqrt(n, r)
}

proof fn lemma_sqrt_unique(n: nat, a: nat, b: nat)
    requires
        a * a <= n < (a + 1) * (a + 1),
        b * b <= n < (b + 1) * (b + 1),
    ensures
        a == b,
{
    if a < b {
        assert((a + 1) * (a + 1) <= b * b) by (nonlinear_arith)
            requires
                a + 1 <= b,
        ;
    } else if b < a {
        assert((b + 1) * (b + 1) <= a * a) by (nonlinear_arith)
            requires
                b + 1 <= a,
        ;
    }
}

/// The square root of `n`, rounded down.
pub fn isqrt(n: u64) -> (r: u64)
    ensures
        r * r <= n < (r + 1) * (r + 1),
        r == floor_sqrt(n as nat),
{
    let mut lo: u64 = 0;
    let mut hi: u64 = 0x1_0000_0000;
    assert(hi * hi > n) by (nonlinear_arith)
        requires
            hi == 0x1_0000_0000,
    ;
    while hi - lo > 1
        invariant
            lo < hi <= 0x1_0000_0000,
            lo * lo <= n,
            n < hi * hi,
        decreases hi - lo,
    {
        let mid = lo + (hi - lo) / 2;
        assert(mid * mid <= 0xffff_ffff * 0xffff_ffff) by (nonlinear_arith)
            requires
                mid < 0x1_0000_0000,
        ;
        if mid * mid <= n {
            lo = mid;
        } else {
            hi = mid;
        }
    }
    proof {
        let r = lo as nat;
        assert(is_floor_sqrt(n as nat, r));
        let c = floor_sqrt(n as nat);
        assert(c * c <= n < (c + 1) * (c + 1));
        lemma_sqrt_unique(n as nat, r, c);
    }
    lo
}

pub open spec fn abs(v: int) -> int {
    if v < 0 {
        -v
    } else {
        v
    }
}

/// One coordinate of a stick glyph's offset: `d * v * sqrt(1 - w^2 / 2)`
/// in normalised units, rounded towards zero, where `w` is the other axis.
pub open spec fn offset_along(d: int, v: int, w: int) -> int {
    let n1 = NORM_ONE as int;
    let s = floor_sqrt((n1 * n1 - w * w / 2) as nat) as int;
    let m = d * abs(v) * s / (n1 * n1);
    if v < 0 {
        -m
    } else {
        m
    }
}

/// How far a stick glyph is drawn from its centre for the normalised
/// position `(x, y)`: a roughly circular range of `d` around it.
pub open spec fn stick_offset_spec(d: int, x: int, y: int) -> Point {
    Point { x: offset_along(d, x, y) as i64, y: offset_along(d, y, x) as i64 }
}

fn along(d: i64, v: i64, w: i64) -> (r: i64)
    requires
        0 <= d <= COORD_LIMIT,
        -NORM_ONE <= v <= NORM_ONE,
        -NORM_ONE <= w <= NORM_ONE,
    ensures
        r == offset_along(d as int, v as int, w as int),
        -d <= r <= d,
{
    let aw: u64 = if w < 0 { (-w) as u64 } else { w as u64 };
    let av: u64 = if v < 0 { (-v) as u64 } else { v as u64 };
    assert(aw * aw <= 1_000_000 * 1_000_000) by (nonlinear_arith)
        requires
            aw <= 1_000_000,
    ;
    assert(aw * aw == w * w) by (nonlinear_arith)
        requires
            aw == abs(w as int),
    ;
    let s = isqrt(1_000_000 * 1_000_000 - aw * aw / 2);
    assert(s <= 1_000_000) by (nonlinear_arith)
        requires
            s * s <= 1_000_000 * 1_000_000,
    ;
    let dd = d as u128;
    assert(dd * (av as u128) <= dd * 1_000_000) by (nonlinear_arith)
        requires
            av <= 1_000_000,
    ;
    let da = dd * (av as u128);
    assert(da * (s as u128) <= da * 1_000_000) by (nonlinear_arith)
        requires
            s <= 1_000_000,
    ;
    let p = da * (s as u128);
    let m = p / 1_000_000_000_000;
    proof {
        assert(p <= dd * 1_000_000_000_000) by (nonlinear_arith)
            requires
                p == da * s,
                da <= dd * 1_000_000,
                s <= 1_000_000,
                da >= 0,
        ;
        vstd::arithmetic::div_mod::lemma_div_is_ordered(
            p as int,
            dd * 1_000_000_000_000,
            1_000_000_000_000,
        );
        vstd::arithmetic::div_mod::lemma_div_multiples_vanish(dd as int, 1_000_000_000_000);
        assert(dd * 1_000_000_000_000 == 1_000_000_000_000 * dd) by (nonlinear_arith);
    }
    if v < 0 {
        -(m as i64)
    } else {
        m as i64
    }
}

/// How far a stick glyph is drawn from its centre for the normalised
/// position `(x, y)`.
pub fn stick_offset(displacement: i64, x: i64, y: i64) -> (p: Point)
    requires
        0 <= displacement <= COORD_LIMIT,
        -NORM_ONE <= x <= NORM_ONE,
        -NORM_ONE <= y <= NORM_ONE,
    ensures
        p == stick_offset_spec(displacement as int, x as int, y as int),
{
    Point { x: along(displacement, x, y), y: along(displacement, y, x) }
}

pub open spec fn origin() -> Point {
    Point { x: 0, y: 0 }
}

/// A button: its fill, then its outline.
pub open spec fn button_cmds(b: Button, pressed: bool) -> Seq<DrawCommand> {
    let fill = seq![
        DrawCommand::FillPath { path: b.path, color: b.fill.pick(pressed), offset: origin() },
    ];
    match b.outline {
        Some((c, w)) => fill.push(
            DrawCommand::StrokePath {
                path: b.path,
                color: c.pick(pressed),
                width: w,
                offset: origin(),
            },
        ),
        None => fill,
    }
}

/// The fill of an axis, flipped when the axis is inverted.
pub open spec fn axis_percent(a: Axis, value: int) -> int {
    if a.axis.invert {
        NORM_ONE - value
    } else {
        value
    }
}

/// An axis: its whole rectangle in the inactive color, the filled part in
/// the active color, then the outline of the whole rectangle.
pub open spec fn axis_cmds(a: Axis, value: int) -> Seq<DrawCommand> {
    let base = seq![
        DrawCommand::FillRect { rect: a.path, color: a.fill.inactive },
        DrawCommand::FillRect {
            rect: active_rect_spec(a.path, a.direction, axis_percent(a, value)),
            color: a.fill.active,
        },
    ];
    match a.outline {
        Some((c, w)) => base.push(DrawCommand::StrokeRect { rect: a.path, color: c, width: w }),
        None => base,
    }
}

/// A stick: its gate ring, then its glyph's fill and outline moved by the stick's
/// offset. Each axis's own invert flag flips that axis only.
pub open spec fn stick_cmds(s: Stick, x: int, y: int) -> Seq<DrawCommand> {
    let active = stick_active_spec(x, y, s.deadzone);
    let vx = if s.x.invert {
        -x
    } else {
        x
    };
    let vy = if s.y.invert {
        -y
    } else {
        y
    };
    let off = stick_offset_spec(s.displacement as int, vx, vy);
    let gate = match s.gate {
        Some((p, c, w)) => seq![
            DrawCommand::StrokePath { path: p, color: c.pick(active), width: w, offset: origin() },
        ],
        None => Seq::empty(),
    };
    let body = gate.push(DrawCommand::FillPath { path: s.path, color: s.fill.pick(active), offset: off });
    match s.outline {
        Some((c, w)) => body.push(
            DrawCommand::StrokePath { path: s.path, color: c.pick(active), width: w, offset: off },
        ),
        None => body,
    }
}

pub open spec fn buttons_cmds(bs: Seq<Button>, st: Seq<bool>, n: nat) -> Seq<DrawCommand>
    decreases n,
{
    if n == 0 {
        Seq::empty()
    } else {
        buttons_cmds(bs, st, (n - 1) as nat) + button_cmds(bs[n - 1], st[n - 1])
    }
}

pub open spec fn axes_cmds(xs: Seq<Axis>, st: Seq<i64>, n: nat) -> Seq<DrawCommand>
    decreases n,
{
    if n == 0 {
        Seq::empty()
    } else {
        axes_cmds(xs, st, (n - 1) as nat) + axis_cmds(xs[n - 1], st[n - 1] as int)
    }
}

pub open spec fn sticks_cmds(ss: Seq<Stick>, st: Seq<(i64, i64)>, n: nat) -> Seq<DrawCommand>
    decreases n,
{
    if n == 0 {
        Seq::empty()
    } else {
        sticks_cmds(ss, st, (n - 1) as nat) + stick_cmds(
            ss[n - 1],
            st[n - 1].0 as int,
            st[n - 1].1 as int,
        )
    }
}

/// A whole frame: clear, then every button, every axis, every stick.
pub open spec fn frame(inputs: Inputs, state: InputState) -> Seq<DrawCommand> {
    seq![DrawCommand::Clear] + buttons_cmds(
        inputs.buttons@,
        state.buttons@,
        inputs.buttons@.len(),
    ) + axes_cmds(inputs.axes@, state.axes@, inputs.axes@.len()) + sticks_cmds(
        inputs.sticks@,
        state.sticks@,
        inputs.sticks@.len(),
    )
}

fn push_button(cmds: &mut Vec<DrawCommand>, b: &Button, pressed: bool)
    ensures
        final(cmds)@ == old(cmds)@ + button_cmds(*b, pressed),
{
    let origin = Point { x: 0, y: 0 };
    cmds.push(DrawCommand::FillPath { path: b.path, color: b.fill.get(pressed), offset: origin });
    if let Some((c, w)) = b.outline {
        cmds.push(
            DrawCommand::StrokePath { path: b.path, color: c.get(pressed), width: w, offset: origin },
        );
    }
    assert(final(cmds)@ =~= old(cmds)@ + button_cmds(*b, pressed));
}

fn push_axis(cmds: &mut Vec<DrawCommand>, a: &Axis, value: i64)
    requires
        a.wf(),
        0 <= value <= NORM_ONE,
    ensures
        final(cmds)@ == old(cmds)@ + axis_cmds(*a, value as int),
{
    let percent = if a.axis.invert {
        NORM_ONE - value
    } else {
        value
    };
    cmds.push(DrawCommand::FillRect { rect: a.path, color: a.fill.inactive });
    cmds.push(
        DrawCommand::FillRect {
            rect: active_rect(a.path, a.direction, percent),
            color: a.fill.active,
        },
    );
    if let Some((c, w)) = a.outline {
        cmds.push(DrawCommand::StrokeRect { rect: a.path, color: c, width: w });
    }
    assert(final(cmds)@ =~= old(cmds)@ + axis_cmds(*a, value as int));
}

fn push_stick(cmds: &mut Vec<DrawCommand>, s: &Stick, x: i64, y: i64)
    requires
        s.wf(),
        -NORM_ONE <= x <= NORM_ONE,
        -NORM_ONE <= y <= NORM_ONE,
    ensures
        final(cmds)@ == old(cmds)@ + stick_cmds(*s, x as int, y as int),
{
    let origin = Point { x: 0, y: 0 };
    let active = stick_active(x, y, s.deadzone);
    let vx = if s.x.invert {
        -x
    } else {
        x
    };
    let vy = if s.y.invert {
        -y
    } else {
        y
    };
    let off = stick_offset(s.displacement, vx, vy);
    if let Some((p, c, w)) = s.gate {
        cmds.push(DrawCommand::StrokePath { path: p, color: c.get(active), width: w, offset: origin });
    }
    cmds.push(DrawCommand::FillPath { path: s.path, color: s.fill.get(active), offset: off });
    if let Some((c, w)) = s.outline {
        cmds.push(
            DrawCommand::StrokePath { path: s.path, color: c.get(active), width: w, offset: off },
        );
    }
    assert(final(cmds)@ =~= old(cmds)@ + stick_cmds(*s, x as int, y as int));
}

/// The draw commands of one frame.
pub fn render(inputs: &Inputs, state: &InputState) -> (cmds: Vec<DrawCommand>)
    requires
        inputs.wf(),
        state.fits(inputs),
    ensures
        cmds@ == frame(*inputs, *state),
{
    let mut cmds: Vec<DrawCommand> = Vec::new();
    cmds.push(DrawCommand::Clear);
    let ghost head = cmds@;
    let mut i: usize = 0;
    while i < inputs.buttons.len()
        invariant
            state.fits(inputs),
            head == seq![DrawCommand::Clear],
            i <= inputs.buttons@.len(),
            cmds@ == head + buttons_cmds(inputs.buttons@, state.buttons@, i as nat),
        decreases inputs.buttons@.len() - i,
    {
        push_button(&mut cmds, &inputs.buttons[i], state.buttons[i]);
        proof {
            assert(head + buttons_cmds(inputs.buttons@, state.buttons@, i as nat) + button_cmds(
                inputs.buttons@[i as int],
                state.buttons@[i as int],
            ) =~= head + buttons_cmds(inputs.buttons@, state.buttons@, (i + 1) as nat));
        }
        i += 1;
    }
    let ghost head = cmds@;
    let mut k: usize = 0;
    while k < inputs.axes.len()
        invariant
            inputs.wf(),
            state.fits(inputs),
            k <= inputs.axes@.len(),
            cmds@ == head + axes_cmds(inputs.axes@, state.axes@, k as nat),
        decreases inputs.axes@.len() - k,
    {
        assert(inputs.axes@[k as int].wf());
        assert(0 <= state.axes@[k as int] <= NORM_ONE);
        push_axis(&mut cmds, &inputs.axes[k], state.axes[k]);
        proof {
            assert(head + axes_cmds(inputs.axes@, state.axes@, k as nat) + axis_cmds(
                inputs.axes@[k as int],
                state.axes@[k as int] as int,
            ) =~= head + axes_cmds(inputs.axes@, state.axes@, (k + 1) as nat));
        }
        k += 1;
    }
    let ghost head = cmds@;
    let mut j: usize = 0;
    while j < inputs.sticks.len()
        invariant
            inputs.wf(),
            state.fits(inputs),
            j <= inputs.sticks@.len(),
            cmds@ == head + sticks_cmds(inputs.sticks@, state.sticks@, j as nat),
        decreases inputs.sticks@.len() - j,
    {
        assert(inputs.sticks@[j as int].wf());
        let (x, y) = state.sticks[j];
        assert(norm_in_range(state.sticks@[j as int].0));
        push_stick(&mut cmds, &inputs.sticks[j], x, y);
        proof {
            assert(head + sticks_cmds(inputs.sticks@, state.sticks@, j as nat) + stick_cmds(
                inputs.sticks@[j as int],
                x as int,
                y as int,
            ) =~= head + sticks_cmds(inputs.sticks@, state.sticks@, (j + 1) as nat));
        }
        j += 1;
    }
    cmds
}

} // verus!
