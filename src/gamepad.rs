//! Resolved entities, the live input state, and the gamepad that ties them
//! to a backend.

use std::sync::atomic::AtomicU64;
use std::sync::Arc;

use vstd::prelude::*;

use crate::color::Color;
use crate::haybox::{button_ids, frame_buttons, frame_changes, Haybox};
use crate::render::{self, frame, DrawCommand};
use crate::usb::{
    apply_all, axis_map, button_map, values_in_range, values_of, BackendError, DeviceEvent,
    DeviceLayout, UsbGamepad,
};
use crate::config::{self, FillDir};
use crate::geometry::{
    combine, expand, expanded, lemma_path_bounds, lemma_path_bounds_moved, union_rect, Path, Rect,
    COORD_LIMIT, UNITS_PER_PX,
};

verus! {

/// A full deflection in normalised units: a stick axis runs from
/// `-NORM_ONE` to `NORM_ONE`, an axis fill from `0` to `NORM_ONE`.
pub const NORM_ONE: i64 = 1_000_000;

/// A directional pad drawn as four arrow paths (not resolved from a
/// config yet).
#[derive(Clone, Copy, Debug, PartialEq, Eq)]
pub struct Dpad {
    pub x: RawAxis,
    pub y: RawAxis,
    pub up: Path,
    pub down: Path,
    pub left: Path,
    pub right: Path,
    pub fill: ColorPair,
    pub outline: Option<(Path, Color, i64)>,
}

/// A device axis, by its index on the device.
#[derive(Clone, Copy, Debug, PartialEq, Eq, Structural)]
pub struct RawAxis {
    pub id: u8,
    pub invert: bool,
}

/// The color of something in its active and its inactive state.
#[derive(Clone, Copy, Debug, PartialEq, Eq, Structural)]
pub struct ColorPair {
    pub active: Color,
    pub inactive: Color,
}

impl ColorPair {
    pub fn new(active: Color, inactive: Color) -> (p: ColorPair)
        ensures
            p == (ColorPair { active, inactive }),
    {
        ColorPair { active, inactive }
    }

    pub open spec fn pick(self, active: bool) -> Color {
        if active {
            self.active
        } else {
            self.inactive
        }
    }

    pub fn get(&self, active: bool) -> (c: Color)
        ensures
            c == self.pick(active),
    {
        if active {
            self.active
        } else {
            self.inactive
        }
    }
}

#[derive(Clone, Copy, Debug, PartialEq, Eq)]
pub struct Button {
    pub id: u8,
    pub path: Path,
    pub fill: ColorPair,
    /// Outline colors and stroke width.
    pub outline: Option<(ColorPair, i64)>,
}

#[derive(Clone, Copy, Debug, PartialEq, Eq)]
pub struct Axis {
    pub axis: RawAxis,
    pub path: Rect,
    pub direction: FillDir,
    pub fill: ColorPair,
    /// Outline color and stroke width.
    pub outline: Option<(Color, i64)>,
}

#[derive(Clone, Copy, Debug, PartialEq, Eq)]
pub struct Stick {
    pub x: RawAxis,
    pub y: RawAxis,
    /// In normalised units.
    pub deadzone: i64,
    pub path: Path,
    /// How far the glyph may travel from its centre.
    pub displacement: i64,
    pub fill: ColorPair,
    /// Outline colors and stroke width.
    pub outline: Option<(ColorPair, i64)>,
    /// Gate path, colors and stroke width.
    pub gate: Option<(Path, ColorPair, i64)>,
}

pub open spec fn weight_within<T>(o: Option<(T, i64)>, lim: int) -> bool {
    match o {
        Some((_, w)) => 0 <= w <= lim,
        None => true,
    }
}

/// Geometry a resolved config always stays within.
pub const CONFIG_LIMIT: i64 = 0x4_0000_0000;

impl Button {
    pub open spec fn within(self, lim: int) -> bool {
        self.path.within(lim) && weight_within(self.outline, lim)
    }

    pub open spec fn wf(self) -> bool {
        self.within(COORD_LIMIT as int)
    }

    /// The path's bounds, grown by the outline's width.
    pub open spec fn bounds_spec(self) -> Rect {
        match self.outline {
            Some((_, w)) => expanded(self.path.bounds_spec(), w as int),
            None => self.path.bounds_spec(),
        }
    }

    pub open spec fn moved(self, dx: int, dy: int) -> Button {
        Button { path: self.path.moved(dx, dy), ..self }
    }

    pub fn bounds(&self) -> (r: Rect)
        requires
            self.wf(),
        ensures
            r == self.bounds_spec(),
    {
        let b = self.path.bounds();
        match self.outline {
            Some((_, w)) => expand(b, w),
            None => b,
        }
    }
}

impl Axis {
    pub open spec fn within(self, lim: int) -> bool {
        self.path.within(lim) && self.path.ordered() && weight_within(self.outline, lim)
    }

    pub open spec fn wf(self) -> bool {
        self.within(COORD_LIMIT as int)
    }

    /// The rectangle, grown by the outline's width.
    pub open spec fn bounds_spec(self) -> Rect {
        match self.outline {
            Some((_, w)) => expanded(self.path, w as int),
            None => self.path,
        }
    }

    pub open spec fn moved(self, dx: int, dy: int) -> Axis {
        Axis { path: self.path.moved(dx, dy), ..self }
    }

    pub fn bounds(&self) -> (r: Rect)
        requires
            self.wf(),
        ensures
            r == self.bounds_spec(),
    {
        match self.outline {
            Some((_, w)) => expand(self.path, w),
            None => self.path,
        }
    }
}

impl Stick {
    pub open spec fn within(self, lim: int) -> bool {
        &&& self.path.within(lim)
        &&& 0 <= self.displacement <= lim
        &&& 0 <= self.deadzone
        &&& weight_within(self.outline, lim)
        &&& match self.gate {
            Some((p, _, w)) => p.within(lim) && 0 <= w <= lim,
            None => true,
        }
    }

    pub open spec fn wf(self) -> bool {
        self.within(COORD_LIMIT as int)
    }

    /// The path's bounds grown by the displacement and the outline's width;
    /// with a gate, also every point of its gate circle and stroke.
    pub open spec fn bounds_spec(self) -> Rect {
        let b = expanded(self.path.bounds_spec(), self.displacement as int);
        let b = match self.outline {
            Some((_, w)) => expanded(b, w as int),
            None => b,
        };
        match self.gate {
            Some((p, _, w)) => union_rect(b, expanded(p.bounds_spec(), w as int)),
            None => b,
        }
    }

    pub open spec fn moved(self, dx: int, dy: int) -> Stick {
        Stick {
            path: self.path.moved(dx, dy),
            gate: match self.gate {
                Some((p, c, w)) => Some((p.moved(dx, dy), c, w)),
                None => None,
            },
            ..self
        }
    }

    pub fn bounds(&self) -> (r: Rect)
        requires
            self.wf(),
        ensures
            r == self.bounds_spec(),
    {
        let mut b = expand(self.path.bounds(), self.displacement);
        if let Some((_, w)) = self.outline {
            b = expand(b, w);
        }
        if let Some((p, _, w)) = self.gate {
            b = combine(b, expand(p.bounds(), w));
        }
        b
    }
}

/// The union of a non-empty sequence of rectangles.
pub open spec fn union_all(rs: Seq<Rect>) -> Rect
    decreases rs.len(),
{
    if rs.len() <= 1 {
        rs[0]
    } else {
        union_rect(union_all(rs.drop_last()), rs.last())
    }
}

/// The canvas of a layout with nothing in it: 100 by 100 pixels.
pub open spec fn placeholder() -> Rect {
    Rect {
        left: 0,
        top: 0,
        right: (100 * UNITS_PER_PX) as i64,
        bottom: (100 * UNITS_PER_PX) as i64,
    }
}

/// The bounds of every entity, buttons first, then sticks, then axes.
pub open spec fn entity_bounds(bs: Seq<Button>, ss: Seq<Stick>, xs: Seq<Axis>) -> Seq<Rect> {
    bs.map_values(|b: Button| b.bounds_spec()) + ss.map_values(|s: Stick| s.bounds_spec())
        + xs.map_values(|a: Axis| a.bounds_spec())
}

/// The union of the entities' bounds, or the placeholder when there are none.
pub open spec fn bounds_of(bs: Seq<Button>, ss: Seq<Stick>, xs: Seq<Axis>) -> Rect {
    let rs = entity_bounds(bs, ss, xs);
    if rs.len() == 0 {
        placeholder()
    } else {
        union_all(rs)
    }
}

/// The union of the first `n` rectangles, if there are any.
pub open spec fn prefix_union(rs: Seq<Rect>, n: int) -> Option<Rect> {
    if n == 0 {
        None
    } else {
        Some(union_all(rs.take(n)))
    }
}

/// The resolved entities, ready to draw.
#[derive(Clone, Debug)]
pub struct Inputs {
    pub buttons: Vec<Button>,
    pub sticks: Vec<Stick>,
    pub axes: Vec<Axis>,
}

impl Inputs {
    pub open spec fn within(&self, lim: int) -> bool {
        &&& forall|i: int| 0 <= i < self.buttons@.len() ==> #[trigger] self.buttons@[i].within(lim)
        &&& forall|i: int| 0 <= i < self.sticks@.len() ==> #[trigger] self.sticks@[i].within(lim)
        &&& forall|i: int| 0 <= i < self.axes@.len() ==> #[trigger] self.axes@[i].within(lim)
    }

    /// Every entity within the coordinate limit.
    pub open spec fn wf(&self) -> bool {
        self.within(COORD_LIMIT as int)
    }

    pub open spec fn bounds_spec(&self) -> Rect {
        bounds_of(self.buttons@, self.sticks@, self.axes@)
    }

    /// Whether the canvas is no larger than the coordinate limit.
    pub open spec fn fits(&self) -> bool {
        let b = self.bounds_spec();
        b.right - b.left <= COORD_LIMIT && b.bottom - b.top <= COORD_LIMIT
    }

    /// The union of all entities' bounds (outlines, stick travel and gates
    /// included); 100 by 100 pixels at the origin when there are none.
    pub fn bounds(&self) -> (r: Rect)
        requires
            self.wf(),
        ensures
            r == self.bounds_spec(),
            r.within(4 * COORD_LIMIT),
            r.ordered(),
    {
        let ghost rs = entity_bounds(self.buttons@, self.sticks@, self.axes@);
        let ghost nb = self.buttons@.len() as int;
        let ghost ns = self.sticks@.len() as int;
        proof {
            lemma_entity_bounds_index(self.buttons@, self.sticks@, self.axes@);
            lemma_entity_bounds_within(
                self.buttons@,
                self.sticks@,
                self.axes@,
                COORD_LIMIT as int,
            );
        }
        let mut acc: Option<Rect> = None;
        let mut i: usize = 0;
        while i < self.buttons.len()
            invariant
                self.wf(),
                rs == entity_bounds(self.buttons@, self.sticks@, self.axes@),
                nb == self.buttons@.len(),
                ns == self.sticks@.len(),
                forall|q: int|
                    0 <= q < nb ==> rs[q] == (#[trigger] self.buttons@[q]).bounds_spec(),
                forall|q: int|
                    0 <= q < ns ==> rs[nb + q] == (#[trigger] self.sticks@[q]).bounds_spec(),
                forall|q: int|
                    0 <= q < self.axes@.len() ==> rs[nb + ns + q] == (
                    #[trigger] self.axes@[q]).bounds_spec(),
                forall|q: int|
                    0 <= q < rs.len() ==> (#[trigger] rs[q]).within(4 * COORD_LIMIT)
                        && rs[q].ordered(),
                rs.len() == nb + ns + self.axes@.len(),
                i <= nb,
                acc == prefix_union(rs, i as int),
            decreases nb - i,
        {
            let b = self.buttons[i].bounds();
            assert(rs[i as int] == b);
            acc = Some(fold(acc, b, Ghost(rs), Ghost(i as int)));
            i += 1;
        }
        let mut j: usize = 0;
        while j < self.sticks.len()
            invariant
                self.wf(),
                rs == entity_bounds(self.buttons@, self.sticks@, self.axes@),
                nb == self.buttons@.len(),
                ns == self.sticks@.len(),
                forall|q: int|
                    0 <= q < nb ==> rs[q] == (#[trigger] self.buttons@[q]).bounds_spec(),
                forall|q: int|
                    0 <= q < ns ==> rs[nb + q] == (#[trigger] self.sticks@[q]).bounds_spec(),
                forall|q: int|
                    0 <= q < self.axes@.len() ==> rs[nb + ns + q] == (
                    #[trigger] self.axes@[q]).bounds_spec(),
                forall|q: int|
                    0 <= q < rs.len() ==> (#[trigger] rs[q]).within(4 * COORD_LIMIT)
                        && rs[q].ordered(),
                rs.len() == nb + ns + self.axes@.len(),
                j <= ns,
                acc == prefix_union(rs, nb + j),
            decreases ns - j,
        {
            let b = self.sticks[j].bounds();
            assert(rs[nb + j] == b);
            acc = Some(fold(acc, b, Ghost(rs), Ghost(nb + j)));
            j += 1;
        }
        let mut k: usize = 0;
        while k < self.axes.len()
            invariant
                self.wf(),
                rs == entity_bounds(self.buttons@, self.sticks@, self.axes@),
                nb == self.buttons@.len(),
                ns == self.sticks@.len(),
                forall|q: int|
                    0 <= q < nb ==> rs[q] == (#[trigger] self.buttons@[q]).bounds_spec(),
                forall|q: int|
                    0 <= q < ns ==> rs[nb + q] == (#[trigger] self.sticks@[q]).bounds_spec(),
                forall|q: int|
                    0 <= q < self.axes@.len() ==> rs[nb + ns + q] == (
                    #[trigger] self.axes@[q]).bounds_spec(),
                forall|q: int|
                    0 <= q < rs.len() ==> (#[trigger] rs[q]).within(4 * COORD_LIMIT)
                        && rs[q].ordered(),
                rs.len() == nb + ns + self.axes@.len(),
                k <= self.axes@.len(),
                acc == prefix_union(rs, nb + ns + k),
            decreases self.axes@.len() - k,
        {
            let b = self.axes[k].bounds();
            assert(rs[nb + ns + k] == b);
            acc = Some(fold(acc, b, Ghost(rs), Ghost(nb + ns + k)));
            k += 1;
        }
        proof {
            assert(rs.take(rs.len() as int) =~= rs);
            if rs.len() > 0 {
                lemma_union_within(rs, 4 * COORD_LIMIT);
            }
        }
        match acc {
            Some(r) => r,
            None => Rect { left: 0, top: 0, right: 100 * UNITS_PER_PX, bottom: 100 * UNITS_PER_PX },
        }
    }

    /// Moves every entity by `(-left, -top)` of the bounds, so that the
    /// bounds start at the origin.
    pub fn minimize(&mut self)
        requires
            old(self).wf(),
        ensures
            ({
                let b = old(self).bounds_spec();
                &&& final(self).buttons@ == moved_buttons(old(self).buttons@, -b.left, -b.top)
                &&& final(self).sticks@ == moved_sticks(old(self).sticks@, -b.left, -b.top)
                &&& final(self).axes@ == moved_axes(old(self).axes@, -b.left, -b.top)
                &&& final(self).bounds_spec() == b.moved(-b.left, -b.top)
            }),
            old(self).fits() ==> final(self).wf() && final(self).fits(),
            final(self).bounds_spec().left == 0,
            final(self).bounds_spec().top == 0,
    {
        let ghost pre = *self;
        let b = self.bounds();
        let dx = -b.left;
        let dy = -b.top;
        let mut i: usize = 0;
        while i < self.buttons.len()
            invariant
                pre.wf(),
                -4 * COORD_LIMIT <= dx <= 4 * COORD_LIMIT,
                -4 * COORD_LIMIT <= dy <= 4 * COORD_LIMIT,
                self.buttons@.len() == pre.buttons@.len(),
                self.sticks@ == pre.sticks@,
                self.axes@ == pre.axes@,
                i <= self.buttons@.len(),
                forall|q: int|
                    0 <= q < i ==> self.buttons@[q] == (#[trigger] pre.buttons@[q]).moved(
                        dx as int,
                        dy as int,
                    ),
                forall|q: int| i <= q < self.buttons@.len() ==> self.buttons@[q] == pre.buttons@[q],
            decreases self.buttons@.len() - i,
        {
            let e = self.buttons[i];
            assert(pre.buttons@[i as int].within(COORD_LIMIT as int));
            self.buttons.set(i, Button { path: e.path.translate(dx, dy), ..e });
            i += 1;
        }
        let mut j: usize = 0;
        while j < self.sticks.len()
            invariant
                pre.wf(),
                -4 * COORD_LIMIT <= dx <= 4 * COORD_LIMIT,
                -4 * COORD_LIMIT <= dy <= 4 * COORD_LIMIT,
                self.sticks@.len() == pre.sticks@.len(),
                self.buttons@ == moved_buttons(pre.buttons@, dx as int, dy as int),
                self.axes@ == pre.axes@,
                j <= self.sticks@.len(),
                forall|q: int|
                    0 <= q < j ==> self.sticks@[q] == (#[trigger] pre.sticks@[q]).moved(
                        dx as int,
                        dy as int,
                    ),
                forall|q: int| j <= q < self.sticks@.len() ==> self.sticks@[q] == pre.sticks@[q],
            decreases self.sticks@.len() - j,
        {
            let e = self.sticks[j];
            assert(pre.sticks@[j as int].within(COORD_LIMIT as int));
            let gate = match e.gate {
                Some((p, c, w)) => Some((p.translate(dx, dy), c, w)),
                None => None,
            };
            self.sticks.set(j, Stick { path: e.path.translate(dx, dy), gate, ..e });
            j += 1;
        }
        let mut k: usize = 0;
        while k < self.axes.len()
            invariant
                pre.wf(),
                -4 * COORD_LIMIT <= dx <= 4 * COORD_LIMIT,
                -4 * COORD_LIMIT <= dy <= 4 * COORD_LIMIT,
                self.axes@.len() == pre.axes@.len(),
                self.buttons@ == moved_buttons(pre.buttons@, dx as int, dy as int),
                self.sticks@ == moved_sticks(pre.sticks@, dx as int, dy as int),
                k <= self.axes@.len(),
                forall|q: int|
                    0 <= q < k ==> self.axes@[q] == (#[trigger] pre.axes@[q]).moved(
                        dx as int,
                        dy as int,
                    ),
                forall|q: int| k <= q < self.axes@.len() ==> self.axes@[q] == pre.axes@[q],
            decreases self.axes@.len() - k,
        {
            let e = self.axes[k];
            assert(pre.axes@[k as int].within(COORD_LIMIT as int));
            let r = e.path;
            let moved = Rect {
                left: r.left + dx,
                top: r.top + dy,
                right: r.right + dx,
                bottom: r.bottom + dy,
            };
            self.axes.set(k, Axis { path: moved, ..e });
            k += 1;
        }
        proof {
            assert(self.buttons@ =~= moved_buttons(pre.buttons@, dx as int, dy as int));
            assert(self.sticks@ =~= moved_sticks(pre.sticks@, dx as int, dy as int));
            assert(self.axes@ =~= moved_axes(pre.axes@, dx as int, dy as int));
            lemma_minimized(pre);
        }
    }
}

fn fold(acc: Option<Rect>, r: Rect, Ghost(rs): Ghost<Seq<Rect>>, Ghost(n): Ghost<int>) -> (u: Rect)
    requires
        0 <= n < rs.len(),
        acc == prefix_union(rs, n),
        rs[n] == r,
    ensures
        Some(u) == prefix_union(rs, n + 1),
{
    proof {
        assert(rs.take(n + 1).drop_last() =~= rs.take(n));
    }
    match acc {
        None => r,
        Some(a) => combine(a, r),
    }
}

/// Where each entity's bounds sit in `entity_bounds`.
pub proof fn lemma_entity_bounds_index(bs: Seq<Button>, ss: Seq<Stick>, xs: Seq<Axis>)
    ensures
        entity_bounds(bs, ss, xs).len() == bs.len() + ss.len() + xs.len(),
        forall|i: int|
            0 <= i < bs.len() ==> entity_bounds(bs, ss, xs)[i] == (#[trigger] bs[i]).bounds_spec(),
        forall|i: int|
            0 <= i < ss.len() ==> entity_bounds(bs, ss, xs)[bs.len() + i] == (
            #[trigger] ss[i]).bounds_spec(),
        forall|i: int|
            0 <= i < xs.len() ==> entity_bounds(bs, ss, xs)[bs.len() + ss.len() + i] == (
            #[trigger] xs[i]).bounds_spec(),
{
    let b = bs.map_values(|b: Button| b.bounds_spec());
    let s = ss.map_values(|s: Stick| s.bounds_spec());
    let x = xs.map_values(|a: Axis| a.bounds_spec());
    assert forall|i: int| 0 <= i < ss.len() implies entity_bounds(bs, ss, xs)[bs.len() + i] == (
    #[trigger] ss[i]).bounds_spec() by {
        assert((b + s)[bs.len() + i] == s[i]);
    }
    assert forall|i: int| 0 <= i < xs.len() implies entity_bounds(bs, ss, xs)[bs.len() + ss.len()
        + i] == (#[trigger] xs[i]).bounds_spec() by {
        assert((b + s + x)[bs.len() + ss.len() + i] == x[i]);
    }
}

/// Each entity's bounds lie within four times the entities' limit.
pub proof fn lemma_entity_bounds_within(bs: Seq<Button>, ss: Seq<Stick>, xs: Seq<Axis>, lim: int)
    requires
        0 <= lim <= COORD_LIMIT,
        forall|i: int| 0 <= i < bs.len() ==> #[trigger] bs[i].within(lim),
        forall|i: int| 0 <= i < ss.len() ==> #[trigger] ss[i].within(lim),
        forall|i: int| 0 <= i < xs.len() ==> #[trigger] xs[i].within(lim),
    ensures
        forall|k: int|
            0 <= k < entity_bounds(bs, ss, xs).len() ==> (#[trigger] entity_bounds(
                bs,
                ss,
                xs,
            )[k]).within(4 * lim) && entity_bounds(bs, ss, xs)[k].ordered(),
{
    let rs = entity_bounds(bs, ss, xs);
    lemma_entity_bounds_index(bs, ss, xs);
    assert forall|k: int| 0 <= k < rs.len() implies (#[trigger] rs[k]).within(4 * lim)
        && rs[k].ordered() by {
        if k < bs.len() {
            assert(bs[k].within(lim));
            lemma_path_bounds(bs[k].path, lim);
        } else if k < bs.len() + ss.len() {
            let j = k - bs.len();
            let s = ss[j];
            assert(ss[j].within(lim));
            assert(rs[bs.len() + j] == s.bounds_spec());
            lemma_path_bounds(s.path, lim);
            if let Some((p, _, _)) = s.gate {
                lemma_path_bounds(p, lim);
            }
        } else {
            let j = k - bs.len() - ss.len();
            assert(xs[j].within(lim));
            assert(rs[bs.len() + ss.len() + j] == xs[j].bounds_spec());
        }
    }
}

pub open spec fn moved_buttons(bs: Seq<Button>, dx: int, dy: int) -> Seq<Button> {
    bs.map_values(|b: Button| b.moved(dx, dy))
}

pub open spec fn moved_sticks(ss: Seq<Stick>, dx: int, dy: int) -> Seq<Stick> {
    ss.map_values(|s: Stick| s.moved(dx, dy))
}

pub open spec fn moved_axes(xs: Seq<Axis>, dx: int, dy: int) -> Seq<Axis> {
    xs.map_values(|a: Axis| a.moved(dx, dy))
}

pub open spec fn moved_rects(rs: Seq<Rect>, dx: int, dy: int) -> Seq<Rect> {
    rs.map_values(|r: Rect| r.moved(dx, dy))
}

/// The union covers each of its rectangles.
pub proof fn lemma_union_covers(rs: Seq<Rect>, k: int)
    requires
        0 <= k < rs.len(),
    ensures
        union_all(rs).covers(rs[k]),
    decreases rs.len(),
{
    if rs.len() > 1 && k < rs.len() - 1 {
        lemma_union_covers(rs.drop_last(), k);
    }
}

/// Moving every rectangle moves their union.
pub proof fn lemma_union_moved(rs: Seq<Rect>, dx: int, dy: int)
    requires
        rs.len() > 0,
        forall|k: int|
            0 <= k < rs.len() ==> (#[trigger] rs[k]).within(4 * COORD_LIMIT) && rs[k].ordered(),
        -4 * COORD_LIMIT <= dx <= 4 * COORD_LIMIT,
        -4 * COORD_LIMIT <= dy <= 4 * COORD_LIMIT,
    ensures
        union_all(moved_rects(rs, dx, dy)) == union_all(rs).moved(dx, dy),
    decreases rs.len(),
{
    lemma_union_within(rs, 4 * COORD_LIMIT);
    if rs.len() > 1 {
        lemma_union_moved(rs.drop_last(), dx, dy);
        lemma_union_within(rs.drop_last(), 4 * COORD_LIMIT);
        assert(moved_rects(rs, dx, dy).drop_last() =~= moved_rects(rs.drop_last(), dx, dy));
    }
}

/// Moving a button moves its bounds.
proof fn lemma_button_moved(b: Button, dx: int, dy: int)
    requires
        b.wf(),
        -4 * COORD_LIMIT <= dx <= 4 * COORD_LIMIT,
        -4 * COORD_LIMIT <= dy <= 4 * COORD_LIMIT,
    ensures
        b.moved(dx, dy).bounds_spec() == b.bounds_spec().moved(dx, dy),
{
    lemma_path_bounds(b.path, COORD_LIMIT as int);
    lemma_path_bounds_moved(b.path, dx, dy);
}

/// Moving a stick moves its bounds.
proof fn lemma_stick_moved(s: Stick, dx: int, dy: int)
    requires
        s.wf(),
        -4 * COORD_LIMIT <= dx <= 4 * COORD_LIMIT,
        -4 * COORD_LIMIT <= dy <= 4 * COORD_LIMIT,
    ensures
        s.moved(dx, dy).bounds_spec() == s.bounds_spec().moved(dx, dy),
{
    lemma_path_bounds(s.path, COORD_LIMIT as int);
    lemma_path_bounds_moved(s.path, dx, dy);
    if let Some((p, _, _)) = s.gate {
        lemma_path_bounds(p, COORD_LIMIT as int);
        lemma_path_bounds_moved(p, dx, dy);
    }
}

/// Every coordinate an entity stores lies inside the bounds of all entities.
proof fn lemma_entities_inside(inputs: Inputs)
    requires
        inputs.wf(),
    ensures
        ({
            let b = inputs.bounds_spec();
            &&& forall|i: int|
                0 <= i < inputs.buttons@.len() ==> (#[trigger] inputs.buttons@[i]).path.inside(b)
            &&& forall|i: int|
                0 <= i < inputs.sticks@.len() ==> (#[trigger] inputs.sticks@[i]).path.inside(b) && (
                inputs.sticks@[i].gate matches Some((p, _, _)) ==> p.inside(b))
            &&& forall|i: int|
                0 <= i < inputs.axes@.len() ==> b.covers((#[trigger] inputs.axes@[i]).path)
        }),
{
    let bs = inputs.buttons@;
    let ss = inputs.sticks@;
    let xs = inputs.axes@;
    let rs = entity_bounds(bs, ss, xs);
    let b = inputs.bounds_spec();
    let lim = COORD_LIMIT as int;
    lemma_entity_bounds_index(bs, ss, xs);
    assert forall|i: int| 0 <= i < bs.len() implies (#[trigger] bs[i]).path.inside(b) by {
        assert(bs[i].within(lim));
        lemma_path_bounds(bs[i].path, lim);
        lemma_union_covers(rs, i);
    }
    assert forall|i: int| 0 <= i < ss.len() implies (#[trigger] ss[i]).path.inside(b) && (
    ss[i].gate matches Some((p, _, _)) ==> p.inside(b)) by {
        assert(ss[i].within(lim));
        lemma_path_bounds(ss[i].path, lim);
        if let Some((p, _, _)) = ss[i].gate {
            lemma_path_bounds(p, lim);
        }
        lemma_union_covers(rs, bs.len() + i);
    }
    assert forall|i: int| 0 <= i < xs.len() implies b.covers((#[trigger] xs[i]).path) by {
        assert(xs[i].within(lim));
        lemma_union_covers(rs, bs.len() + ss.len() + i);
    }
}

/// Moving the entities moves each of their bounds.
proof fn lemma_entity_bounds_moved(inputs: Inputs, dx: int, dy: int)
    requires
        inputs.wf(),
        -4 * COORD_LIMIT <= dx <= 4 * COORD_LIMIT,
        -4 * COORD_LIMIT <= dy <= 4 * COORD_LIMIT,
    ensures
        entity_bounds(
            moved_buttons(inputs.buttons@, dx, dy),
            moved_sticks(inputs.sticks@, dx, dy),
            moved_axes(inputs.axes@, dx, dy),
        ) == moved_rects(entity_bounds(inputs.buttons@, inputs.sticks@, inputs.axes@), dx, dy),
{
    let bs = inputs.buttons@;
    let ss = inputs.sticks@;
    let xs = inputs.axes@;
    let rs = entity_bounds(bs, ss, xs);
    let lim = COORD_LIMIT as int;
    lemma_entity_bounds_index(bs, ss, xs);
    let mb = moved_buttons(bs, dx, dy);
    let ms = moved_sticks(ss, dx, dy);
    let mx = moved_axes(xs, dx, dy);
    lemma_entity_bounds_index(mb, ms, mx);
    let mr = moved_rects(rs, dx, dy);
    assert forall|k: int| 0 <= k < rs.len() implies #[trigger] entity_bounds(mb, ms, mx)[k]
        == mr[k] by {
        if k < bs.len() {
            assert(bs[k].within(lim));
            assert(mb[k] == bs[k].moved(dx, dy));
            lemma_button_moved(bs[k], dx, dy);
        } else if k < bs.len() + ss.len() {
            let j = k - bs.len();
            assert(ss[j].within(lim));
            assert(ms[j] == ss[j].moved(dx, dy));
            lemma_stick_moved(ss[j], dx, dy);
            assert(rs[bs.len() + j] == ss[j].bounds_spec());
            assert(entity_bounds(mb, ms, mx)[bs.len() + j] == ms[j].bounds_spec());
        } else {
            let j = k - bs.len() - ss.len();
            assert(xs[j].within(lim));
            assert(mx[j] == xs[j].moved(dx, dy));
            assert(rs[bs.len() + ss.len() + j] == xs[j].bounds_spec());
            assert(entity_bounds(mb, ms, mx)[bs.len() + ss.len() + j] == mx[j].bounds_spec());
        }
    }
    assert(entity_bounds(mb, ms, mx) =~= mr);
}

/// Moving any valid entities by `(-left, -top)` of their bounds puts the
/// bounds at the origin, the empty layout included; when the canvas fits
/// the coordinate limit, the moved entities stay within it.
pub proof fn lemma_minimized(pre: Inputs)
    requires
        pre.wf(),
    ensures
        ({
            let b = pre.bounds_spec();
            let mb = moved_buttons(pre.buttons@, -b.left, -b.top);
            let ms = moved_sticks(pre.sticks@, -b.left, -b.top);
            let mx = moved_axes(pre.axes@, -b.left, -b.top);
            &&& bounds_of(mb, ms, mx) == b.moved(-b.left, -b.top)
            &&& bounds_of(mb, ms, mx).left == 0
            &&& bounds_of(mb, ms, mx).top == 0
            &&& pre.fits() ==> forall|i: int| 0 <= i < mb.len() ==> (#[trigger] mb[i]).wf()
            &&& pre.fits() ==> forall|i: int| 0 <= i < ms.len() ==> (#[trigger] ms[i]).wf()
            &&& pre.fits() ==> forall|i: int| 0 <= i < mx.len() ==> (#[trigger] mx[i]).wf()
        }),
{
    let b = pre.bounds_spec();
    let dx = -b.left;
    let dy = -b.top;
    let bs = pre.buttons@;
    let ss = pre.sticks@;
    let xs = pre.axes@;
    let rs = entity_bounds(bs, ss, xs);
    let lim = COORD_LIMIT as int;
    lemma_entity_bounds_within(bs, ss, xs, lim);
    if rs.len() > 0 {
        lemma_union_within(rs, 4 * lim);
    }
    lemma_entities_inside(pre);
    lemma_entity_bounds_moved(pre, dx as int, dy as int);
    if rs.len() > 0 {
        lemma_union_moved(rs, dx as int, dy as int);
    }
    let mb = moved_buttons(bs, dx as int, dy as int);
    let ms = moved_sticks(ss, dx as int, dy as int);
    let mx = moved_axes(xs, dx as int, dy as int);
    if pre.fits() {
        assert forall|i: int| 0 <= i < mb.len() implies (#[trigger] mb[i]).wf() by {
            assert(bs[i].within(lim));
            assert(bs[i].path.inside(b));
        }
        assert forall|i: int| 0 <= i < ms.len() implies (#[trigger] ms[i]).wf() by {
            assert(ss[i].within(lim));
            assert(ss[i].path.inside(b));
        }
        assert forall|i: int| 0 <= i < mx.len() implies (#[trigger] mx[i]).wf() by {
            assert(xs[i].within(lim));
            assert(b.covers(xs[i].path));
        }
    }
}

/// The union of rectangles within a limit is within it.
pub proof fn lemma_union_within(rs: Seq<Rect>, lim: int)
    requires
        rs.len() > 0,
        forall|k: int| 0 <= k < rs.len() ==> (#[trigger] rs[k]).within(lim) && rs[k].ordered(),
    ensures
        union_all(rs).within(lim),
        union_all(rs).ordered(),
    decreases rs.len(),
{
    if rs.len() > 1 {
        lemma_union_within(rs.drop_last(), lim);
    }
}

pub open spec fn resolved_buttons(pad: config::Gamepad) -> Seq<Button> {
    pad.buttons@.map_values(|b: config::Button| b.resolved(pad))
}

pub open spec fn resolved_sticks(pad: config::Gamepad) -> Seq<Stick> {
    pad.sticks@.map_values(|s: config::Stick| s.resolved(pad))
}

pub open spec fn resolved_axes(pad: config::Gamepad) -> Seq<Axis> {
    pad.axes@.map_values(|a: config::Axis| a.resolved(pad))
}

impl Inputs {
    /// Resolves every entity of the config, then minimizes: the result is
    /// the resolved entities moved by `(-left, -top)` of their bounds.
    pub fn resolve(config: &config::Gamepad) -> (r: Inputs)
        ensures
            ({
                let bs = resolved_buttons(*config);
                let ss = resolved_sticks(*config);
                let xs = resolved_axes(*config);
                let b = bounds_of(bs, ss, xs);
                &&& r.buttons@ == moved_buttons(bs, -b.left, -b.top)
                &&& r.sticks@ == moved_sticks(ss, -b.left, -b.top)
                &&& r.axes@ == moved_axes(xs, -b.left, -b.top)
                &&& r.bounds_spec() == b.moved(-b.left, -b.top)
            }),
            r.wf(),
            r.fits(),
            r.bounds_spec().left == 0,
            r.bounds_spec().top == 0,
    {
        let mut buttons: Vec<Button> = Vec::new();
        let mut i: usize = 0;
        while i < config.buttons.len()
            invariant
                i <= config.buttons@.len(),
                buttons@.len() == i,
                forall|q: int|
                    0 <= q < i ==> buttons@[q] == (#[trigger] config.buttons@[q]).resolved(*config)
                        && buttons@[q].within(CONFIG_LIMIT as int),
            decreases config.buttons@.len() - i,
        {
            buttons.push(config.buttons[i].load(config));
            i += 1;
        }
        let mut sticks: Vec<Stick> = Vec::new();
        let mut j: usize = 0;
        while j < config.sticks.len()
            invariant
                j <= config.sticks@.len(),
                sticks@.len() == j,
                forall|q: int|
                    0 <= q < j ==> sticks@[q] == (#[trigger] config.sticks@[q]).resolved(*config)
                        && sticks@[q].within(CONFIG_LIMIT as int),
            decreases config.sticks@.len() - j,
        {
            sticks.push(config.sticks[j].load(config));
            j += 1;
        }
        let mut axes: Vec<Axis> = Vec::new();
        let mut k: usize = 0;
        while k < config.axes.len()
            invariant
                k <= config.axes@.len(),
                axes@.len() == k,
                forall|q: int|
                    0 <= q < k ==> axes@[q] == (#[trigger] config.axes@[q]).resolved(*config)
                        && axes@[q].within(CONFIG_LIMIT as int),
            decreases config.axes@.len() - k,
        {
            axes.push(config.axes[k].load(config));
            k += 1;
        }
        let mut inputs = Inputs { buttons, sticks, axes };
        proof {
            assert(inputs.buttons@ =~= resolved_buttons(*config));
            assert(inputs.sticks@ =~= resolved_sticks(*config));
            assert(inputs.axes@ =~= resolved_axes(*config));
            lemma_config_fits(inputs);
        }
        inputs.minimize();
        inputs
    }

    /// The canvas size in whole pixels: the bounds' width and height,
    /// rounded down.
    pub fn canvas_size(&self) -> (r: (u32, u32))
        requires
            self.wf(),
            self.fits(),
        ensures
            r.0 == (self.bounds_spec().right - self.bounds_spec().left) / UNITS_PER_PX as int,
            r.1 == (self.bounds_spec().bottom - self.bounds_spec().top) / UNITS_PER_PX as int,
    {
        let b = self.bounds();
        (((b.right - b.left) / UNITS_PER_PX) as u32, ((b.bottom - b.top) / UNITS_PER_PX) as u32)
    }
}

/// Entities within the config limit make a canvas that fits.
proof fn lemma_config_fits(inputs: Inputs)
    requires
        inputs.within(CONFIG_LIMIT as int),
    ensures
        inputs.wf(),
        inputs.fits(),
{
    let rs = entity_bounds(inputs.buttons@, inputs.sticks@, inputs.axes@);
    lemma_entity_bounds_within(inputs.buttons@, inputs.sticks@, inputs.axes@, CONFIG_LIMIT as int);
    if rs.len() > 0 {
        lemma_union_within(rs, 4 * CONFIG_LIMIT);
    }
    assert forall|i: int| 0 <= i < inputs.buttons@.len() implies #[trigger] inputs.buttons@[i].within(
        COORD_LIMIT as int,
    ) by {
        assert(inputs.buttons@[i].within(CONFIG_LIMIT as int));
    }
    assert forall|i: int| 0 <= i < inputs.sticks@.len() implies #[trigger] inputs.sticks@[i].within(
        COORD_LIMIT as int,
    ) by {
        assert(inputs.sticks@[i].within(CONFIG_LIMIT as int));
    }
    assert forall|i: int| 0 <= i < inputs.axes@.len() implies #[trigger] inputs.axes@[i].within(
        COORD_LIMIT as int,
    ) by {
        assert(inputs.axes@[i].within(CONFIG_LIMIT as int));
    }
}

/// Live values, one per entity: whether each button is pressed, each
/// stick's `(x, y)` in `-NORM_ONE ..= NORM_ONE`, and each axis's fill in
/// `0 ..= NORM_ONE`.
#[derive(Clone, Debug)]
pub struct InputState {
    pub buttons: Vec<bool>,
    pub sticks: Vec<(i64, i64)>,
    pub axes: Vec<i64>,
}

pub open spec fn norm_in_range(v: i64) -> bool {
    -NORM_ONE <= v <= NORM_ONE
}

impl InputState {
    /// One value per entity, each in its range.
    pub open spec fn fits(&self, inputs: &Inputs) -> bool {
        &&& self.buttons@.len() == inputs.buttons@.len()
        &&& self.sticks@.len() == inputs.sticks@.len()
        &&& self.axes@.len() == inputs.axes@.len()
        &&& forall|i: int|
            0 <= i < self.sticks@.len() ==> norm_in_range((#[trigger] self.sticks@[i]).0)
                && norm_in_range(self.sticks@[i].1)
        &&& forall|i: int| 0 <= i < self.axes@.len() ==> 0 <= #[trigger] self.axes@[i] <= NORM_ONE
    }

    /// The state of untouched controls: buttons released, sticks centred,
    /// axes half full.
    pub fn new(inputs: &Inputs) -> (s: InputState)
        ensures
            s.fits(inputs),
            forall|i: int| 0 <= i < s.buttons@.len() ==> !#[trigger] s.buttons@[i],
            forall|i: int| 0 <= i < s.sticks@.len() ==> #[trigger] s.sticks@[i] == (0i64, 0i64),
            forall|i: int| 0 <= i < s.axes@.len() ==> #[trigger] s.axes@[i] == NORM_ONE / 2,
    {
        let mut buttons: Vec<bool> = Vec::new();
        while buttons.len() < inputs.buttons.len()
            invariant
                buttons@.len() <= inputs.buttons@.len(),
                forall|i: int| 0 <= i < buttons@.len() ==> !#[trigger] buttons@[i],
            decreases inputs.buttons@.len() - buttons@.len(),
        {
            buttons.push(false);
        }
        let mut sticks: Vec<(i64, i64)> = Vec::new();
        while sticks.len() < inputs.sticks.len()
            invariant
                sticks@.len() <= inputs.sticks@.len(),
                forall|i: int| 0 <= i < sticks@.len() ==> #[trigger] sticks@[i] == (0i64, 0i64),
            decreases inputs.sticks@.len() - sticks@.len(),
        {
            sticks.push((0, 0));
        }
        let mut axes: Vec<i64> = Vec::new();
        while axes.len() < inputs.axes.len()
            invariant
                axes@.len() <= inputs.axes@.len(),
                forall|i: int| 0 <= i < axes@.len() ==> #[trigger] axes@[i] == NORM_ONE / 2,
            decreases inputs.axes@.len() - axes@.len(),
        {
            axes.push(NORM_ONE / 2);
        }
        InputState { buttons, sticks, axes }
    }
}

/// Whether `b` is `a` remapped to `inputs`: a USB backend keeps its device
/// and takes the new layout's mapping (its old one without a layout), a
/// serial backend tracks the new buttons.
pub open spec fn reloaded(a: Backend, b: Backend, inputs: Inputs, device: Option<&DeviceLayout>) -> bool {
    match (a, b) {
        (Backend::Usb(a), Backend::Usb(b)) => b.device() == a.device() && match device {
            None => b.button_codes() == a.button_codes() && b.axis_codes() == a.axis_codes(),
            Some(d) => b.button_codes() == button_map(
                inputs.buttons@,
                d.buttons@,
                inputs.buttons@.len(),
            ) && b.axis_codes() == axis_map(inputs, d.axes@),
        },
        (Backend::Serial(_), Backend::Serial(h)) => h.ids() == button_ids(inputs),
        _ => false,
    }
}

/// The live device behind a gamepad.
#[derive(Debug)]
pub enum Backend {
    Usb(UsbGamepad),
    Serial(Haybox),
}

/// What a backend is started from: a USB device index and that device's
/// layout (when a device has that index), or the cell a serial reader
/// stores its frames in.
pub enum BackendInit {
    Usb(usize, Option<DeviceLayout>),
    Serial(Arc<AtomicU64>),
}

impl Backend {
    /// Starts a backend for the entities of `inputs`.
    pub fn init(init: BackendInit, inputs: &Inputs) -> (r: Result<Backend, BackendError>)
        ensures
            match init {
                BackendInit::Usb(id, None) => r == Err::<Backend, BackendError>(
                    BackendError::NoSuchDevice(id),
                ),
                BackendInit::Usb(id, Some(d)) => r matches Ok(Backend::Usb(u)) && u.device() == id
                    && u.button_codes() == button_map(
                    inputs.buttons@,
                    d.buttons@,
                    inputs.buttons@.len(),
                ) && u.axis_codes() == axis_map(*inputs, d.axes@),
                BackendInit::Serial(_) => r matches Ok(Backend::Serial(h)) && h.ids() == button_ids(
                    *inputs,
                ),
            },
    {
        match init {
            BackendInit::Usb(id, device) => {
                let device_ref = match &device {
                    Some(d) => Some(d),
                    None => None,
                };
                match UsbGamepad::init(id, device_ref, inputs) {
                    Ok(u) => Ok(Backend::Usb(u)),
                    Err(e) => Err(e),
                }
            },
            BackendInit::Serial(cell) => Ok(Backend::Serial(Haybox::init(cell, inputs))),
        }
    }

    /// Applies what the device reported since the last poll: for USB the
    /// queued `usb_events`, for serial the latest frame.
    pub fn poll(&self, state: &mut InputState, usb_events: &Vec<DeviceEvent>) -> (changed: bool)
        requires
            values_in_range(values_of(*old(state))),
        ensures
            values_in_range(values_of(*final(state))),
            final(state).buttons@.len() == old(state).buttons@.len(),
            final(state).sticks@.len() == old(state).sticks@.len(),
            final(state).axes@.len() == old(state).axes@.len(),
            match self {
                Backend::Usb(u) => (values_of(*final(state)), changed) == apply_all(
                    u.button_codes(),
                    u.axis_codes(),
                    u.device(),
                    values_of(*old(state)),
                    usb_events@,
                ),
                Backend::Serial(h) => final(state).sticks@ == old(state).sticks@
                    && final(state).axes@ == old(state).axes@ && exists|frame: u64|
                    final(state).buttons@ == frame_buttons(h.ids(), old(state).buttons@, frame)
                        && changed == frame_changes(h.ids(), old(state).buttons@, frame),
            },
    {
        match self {
            Backend::Usb(u) => u.poll(state, usb_events),
            Backend::Serial(h) => {
                let changed = h.poll(state);
                assert(values_of(*final(state)).1 == values_of(*old(state)).1);
                assert(values_of(*final(state)).2 == values_of(*old(state)).2);
                changed
            },
        }
    }

    /// Remaps the backend to a new set of entities.
    pub fn reload(&mut self, inputs: &Inputs, device: Option<&DeviceLayout>)
        ensures
            reloaded(*old(self), *final(self), *inputs, device),
    {
        match self {
            Backend::Usb(u) => u.reload(inputs, device),
            Backend::Serial(h) => h.reload(inputs),
        }
    }
}

/// The resolved layout, its live state, and the backend feeding it.
#[derive(Debug)]
pub struct Gamepad {
    pub backend: Option<Backend>,
    pub inputs: Inputs,
    pub input_state: InputState,
}

/// A state as `InputState::new` makes it.
pub open spec fn fresh(s: InputState, inputs: Inputs) -> bool {
    &&& s.fits(&inputs)
    &&& forall|i: int| 0 <= i < s.buttons@.len() ==> !#[trigger] s.buttons@[i]
    &&& forall|i: int| 0 <= i < s.sticks@.len() ==> #[trigger] s.sticks@[i] == (0i64, 0i64)
    &&& forall|i: int| 0 <= i < s.axes@.len() ==> #[trigger] s.axes@[i] == NORM_ONE / 2
}

/// Whether `r` is what `Inputs::resolve` makes of `config`.
pub open spec fn resolved_from(r: Inputs, config: config::Gamepad) -> bool {
    let bs = resolved_buttons(config);
    let ss = resolved_sticks(config);
    let xs = resolved_axes(config);
    let b = bounds_of(bs, ss, xs);
    &&& r.buttons@ == moved_buttons(bs, -b.left, -b.top)
    &&& r.sticks@ == moved_sticks(ss, -b.left, -b.top)
    &&& r.axes@ == moved_axes(xs, -b.left, -b.top)
}

impl Gamepad {
    /// Inputs within the limits and a state that matches them.
    pub open spec fn wf(&self) -> bool {
        self.inputs.wf() && self.inputs.fits() && self.input_state.fits(&self.inputs)
    }

    /// The layout of `config`, in the untouched state, with no backend.
    pub fn new(config: &config::Gamepad) -> (g: Gamepad)
        ensures
            g.wf(),
            g.backend is None,
            resolved_from(g.inputs, *config),
            fresh(g.input_state, g.inputs),
    {
        let inputs = Inputs::resolve(config);
        let input_state = InputState::new(&inputs);
        Gamepad { backend: None, inputs, input_state }
    }

}

impl Default for Gamepad {
    /// An empty layout with no backend.
    fn default() -> (g: Gamepad)
        ensures
            g.wf(),
            g.backend is None,
            g.inputs.buttons@.len() == 0 && g.inputs.sticks@.len() == 0 && g.inputs.axes@.len()
                == 0,
    {
        let inputs = Inputs { buttons: Vec::new(), sticks: Vec::new(), axes: Vec::new() };
        let input_state = InputState::new(&inputs);
        proof {
            assert(entity_bounds(inputs.buttons@, inputs.sticks@, inputs.axes@).len() == 0);
        }
        Gamepad { backend: None, inputs, input_state }
    }
}

impl Gamepad {
    /// Replaces the layout by `config`'s, resets the state, and remaps the
    /// backend (`device` is the USB device's current layout, if any).
    pub fn reload(&mut self, config: &config::Gamepad, device: Option<&DeviceLayout>)
        ensures
            final(self).wf(),
            resolved_from(final(self).inputs, *config),
            fresh(final(self).input_state, final(self).inputs),
            match (old(self).backend, final(self).backend) {
                (None, None) => true,
                (Some(a), Some(b)) => reloaded(a, b, final(self).inputs, device),
                _ => false,
            },
    {
        self.inputs = Inputs::resolve(config);
        self.input_state = InputState::new(&self.inputs);
        if let Some(b) = &mut self.backend {
            b.reload(&self.inputs, device);
        }
    }

    /// Loads `config` and starts a backend for it; on failure the layout is
    /// loaded and the gamepad keeps its old backend.
    pub fn load(&mut self, config: &config::Gamepad, init: BackendInit) -> (r: Result<
        (),
        BackendError,
    >)
        ensures
            final(self).wf(),
            resolved_from(final(self).inputs, *config),
            fresh(final(self).input_state, final(self).inputs),
            r is Ok ==> final(self).backend is Some,
            r is Err ==> final(self).backend == old(self).backend,
            (r is Err) == (init matches BackendInit::Usb(_, None)),
    {
        self.inputs = Inputs::resolve(config);
        self.input_state = InputState::new(&self.inputs);
        match Backend::init(init, &self.inputs) {
            Ok(b) => {
                self.backend = Some(b);
                Ok(())
            },
            Err(e) => Err(e),
        }
    }

    /// Polls the backend; `false` without one.
    pub fn poll(&mut self, usb_events: &Vec<DeviceEvent>) -> (changed: bool)
        requires
            old(self).wf(),
        ensures
            final(self).wf(),
            final(self).inputs == old(self).inputs,
            final(self).backend == old(self).backend,
            match old(self).backend {
                None => !changed && final(self).input_state == old(self).input_state,
                Some(Backend::Usb(u)) => (values_of(final(self).input_state), changed)
                    == apply_all(
                    u.button_codes(),
                    u.axis_codes(),
                    u.device(),
                    values_of(old(self).input_state),
                    usb_events@,
                ),
                Some(Backend::Serial(h)) => final(self).input_state.sticks@
                    == old(self).input_state.sticks@ && final(self).input_state.axes@
                    == old(self).input_state.axes@ && exists|frame: u64|
                    final(self).input_state.buttons@ == frame_buttons(
                        h.ids(),
                        old(self).input_state.buttons@,
                        frame,
                    ) && changed == frame_changes(h.ids(), old(self).input_state.buttons@, frame),
            },
    {
        let changed = match &self.backend {
            Some(b) => b.poll(&mut self.input_state, usb_events),
            None => false,
        };
        proof {
            let v = values_of(self.input_state);
            assert(values_in_range(v));
            assert forall|i: int| 0 <= i < self.input_state.sticks@.len() implies norm_in_range(
                (#[trigger] self.input_state.sticks@[i]).0,
            ) && norm_in_range(self.input_state.sticks@[i].1) by {
                assert(v.1[i] == self.input_state.sticks@[i]);
            }
            assert forall|i: int| 0 <= i < self.input_state.axes@.len() implies 0
                <= #[trigger] self.input_state.axes@[i] <= NORM_ONE by {
                assert(v.2[i] == self.input_state.axes@[i]);
            }
        }
        changed
    }

    /// The draw commands of the current frame.
    pub fn render(&self) -> (cmds: Vec<DrawCommand>)
        requires
            self.wf(),
        ensures
            cmds@ == frame(self.inputs, self.input_state),
    {
        render::render(&self.inputs, &self.input_state)
    }
}

} // verus!
