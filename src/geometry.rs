//! Fixed-point geometry: points, rectangles, and the two path shapes the
//! overlay draws (circles and rounded rectangles).
//!
//! Coordinates are `i64` counts of `1 / UNITS_PER_PX` of a pixel.

use vstd::prelude::*;

verus! {

/// Fixed-point units in one pixel.
pub const UNITS_PER_PX: i64 = 1000;

/// Coordinates and lengths held by resolved geometry stay within
/// `-COORD_LIMIT ..= COORD_LIMIT`, which leaves room for the arithmetic on them.
pub const COORD_LIMIT: i64 = 0x100_0000_0000;

/// The control-point offset of a quarter-circle cubic Bézier,
/// `4 * (sqrt(2) - 1) / 3`, in millionths.
pub const ARC_K_PPM: i64 = 552_285;

/// The denominator of `ARC_K_PPM`.
pub const PPM: i64 = 1_000_000;

#[derive(Clone, Copy, Debug, PartialEq, Eq, Structural)]
pub struct Point {
    pub x: i64,
    pub y: i64,
}

/// An axis-aligned rectangle given by its edges.
#[derive(Clone, Copy, Debug, PartialEq, Eq, Structural)]
pub struct Rect {
    pub left: i64,
    pub top: i64,
    pub right: i64,
    pub bottom: i64,
}

pub open spec fn in_limit(v: int) -> bool {
    -COORD_LIMIT <= v <= COORD_LIMIT
}

pub open spec fn length_in_limit(v: int) -> bool {
    0 <= v <= COORD_LIMIT
}

pub open spec fn min(a: int, b: int) -> int {
    if a <= b {
        a
    } else {
        b
    }
}

pub open spec fn max(a: int, b: int) -> int {
    if a >= b {
        a
    } else {
        b
    }
}

impl Point {
    pub open spec fn within(self, lim: int) -> bool {
        -lim <= self.x <= lim && -lim <= self.y <= lim
    }

    pub open spec fn wf(self) -> bool {
        self.within(COORD_LIMIT as int)
    }

    pub open spec fn moved(self, dx: int, dy: int) -> Point {
        Point { x: (self.x + dx) as i64, y: (self.y + dy) as i64 }
    }
}

impl Rect {
    /// Every edge within `-lim ..= lim`.
    pub open spec fn within(self, lim: int) -> bool {
        &&& -lim <= self.left <= lim
        &&& -lim <= self.top <= lim
        &&& -lim <= self.right <= lim
        &&& -lim <= self.bottom <= lim
    }

    pub open spec fn ordered(self) -> bool {
        self.left <= self.right && self.top <= self.bottom
    }

    /// Edges in order and inside the coordinate limit.
    pub open spec fn wf(self) -> bool {
        self.within(COORD_LIMIT as int) && self.ordered()
    }

    pub open spec fn moved(self, dx: int, dy: int) -> Rect {
        Rect {
            left: (self.left + dx) as i64,
            top: (self.top + dy) as i64,
            right: (self.right + dx) as i64,
            bottom: (self.bottom + dy) as i64,
        }
    }

    /// Whether the rectangle holds the point `(x, y)`, edges included.
    pub open spec fn holds(self, x: int, y: int) -> bool {
        self.left <= x <= self.right && self.top <= y <= self.bottom
    }

    /// Whether the rectangle holds every point of `r`.
    pub open spec fn covers(self, r: Rect) -> bool {
        self.left <= r.left && r.right <= self.right && self.top <= r.top && r.bottom
            <= self.bottom
    }

    /// A rectangle from its edges, if they are in order.
    pub fn from_ltrb(left: i64, top: i64, right: i64, bottom: i64) -> (r: Option<Rect>)
        ensures
            r == (if left <= right && top <= bottom {
                Some(Rect { left, top, right, bottom })
            } else {
                None
            }),
    {
        if left <= right && top <= bottom {
            Some(Rect { left, top, right, bottom })
        } else {
            None
        }
    }
}

/// The smallest rectangle that covers both.
pub open spec fn union_rect(a: Rect, b: Rect) -> Rect {
    Rect {
        left: min(a.left as int, b.left as int) as i64,
        top: min(a.top as int, b.top as int) as i64,
        right: max(a.right as int, b.right as int) as i64,
        bottom: max(a.bottom as int, b.bottom as int) as i64,
    }
}

/// `r` grown by `f` on every side.
pub open spec fn expanded(r: Rect, f: int) -> Rect {
    Rect {
        left: (r.left - f) as i64,
        top: (r.top - f) as i64,
        right: (r.right + f) as i64,
        bottom: (r.bottom + f) as i64,
    }
}

/// The smallest rectangle that covers both.
pub fn combine(a: Rect, b: Rect) -> (r: Rect)
    ensures
        r == union_rect(a, b),
{
    Rect {
        left: if a.left <= b.left { a.left } else { b.left },
        top: if a.top <= b.top { a.top } else { b.top },
        right: if a.right >= b.right { a.right } else { b.right },
        bottom: if a.bottom >= b.bottom { a.bottom } else { b.bottom },
    }
}

/// `r` grown by `f` on every side.
pub fn expand(r: Rect, f: i64) -> (e: Rect)
    requires
        0 <= f,
        i64::MIN <= r.left - f,
        i64::MIN <= r.top - f,
        r.right + f <= i64::MAX,
        r.bottom + f <= i64::MAX,
    ensures
        e == expanded(r, f as int),
{
    Rect { left: r.left - f, top: r.top - f, right: r.right + f, bottom: r.bottom + f }
}

/// A closed outline the overlay fills or strokes.
#[derive(Clone, Copy, Debug, PartialEq, Eq, Structural)]
pub enum Path {
    /// A circle around `center`.
    Circle { center: Point, radius: i64 },
    /// `rect` with its corners rounded to `radius`; see `rounded_rect`.
    RoundedRect { rect: Rect, radius: i64 },
}

impl Path {
    /// Every coordinate within `-lim ..= lim`, the radius within `0 ..= lim`.
    pub open spec fn within(self, lim: int) -> bool {
        match self {
            Path::Circle { center, radius } => center.within(lim) && 0 <= radius <= lim,
            Path::RoundedRect { rect, radius } => rect.within(lim) && rect.ordered() && 0 <= radius
                <= lim,
        }
    }

    pub open spec fn wf(self) -> bool {
        self.within(COORD_LIMIT as int)
    }

    /// The bounds of every point of the path, control points included.
    pub open spec fn bounds_spec(self) -> Rect {
        match self {
            Path::Circle { center, radius } => Rect {
                left: (center.x - radius) as i64,
                top: (center.y - radius) as i64,
                right: (center.x + radius) as i64,
                bottom: (center.y + radius) as i64,
            },
            Path::RoundedRect { rect, radius } => Rect {
                left: min(rect.left as int, rect.right - radius) as i64,
                top: min(rect.top as int, rect.bottom - radius) as i64,
                right: max(rect.right as int, rect.left + radius) as i64,
                bottom: max(rect.bottom as int, rect.top + radius) as i64,
            },
        }
    }

    pub open spec fn moved(self, dx: int, dy: int) -> Path {
        match self {
            Path::Circle { center, radius } => Path::Circle { center: center.moved(dx, dy), radius },
            Path::RoundedRect { rect, radius } => Path::RoundedRect {
                rect: rect.moved(dx, dy),
                radius,
            },
        }
    }

    /// Whether `r` covers every coordinate the path stores.
    pub open spec fn inside(self, r: Rect) -> bool {
        match self {
            Path::Circle { center, .. } => r.holds(center.x as int, center.y as int),
            Path::RoundedRect { rect, .. } => r.covers(rect),
        }
    }

    /// The bounds of every point of the path, control points included.
    pub fn bounds(&self) -> (r: Rect)
        requires
            self.wf(),
        ensures
            r == self.bounds_spec(),
            self.inside(r),
            r.ordered(),
            r.within(2 * COORD_LIMIT),
    {
        match self {
            Path::Circle { center, radius } => Rect {
                left: center.x - *radius,
                top: center.y - *radius,
                right: center.x + *radius,
                bottom: center.y + *radius,
            },
            Path::RoundedRect { rect, radius } => {
                let l = rect.right - *radius;
                let t = rect.bottom - *radius;
                let r = rect.left + *radius;
                let b = rect.top + *radius;
                Rect {
                    left: if rect.left <= l { rect.left } else { l },
                    top: if rect.top <= t { rect.top } else { t },
                    right: if rect.right >= r { rect.right } else { r },
                    bottom: if rect.bottom >= b { rect.bottom } else { b },
                }
            },
        }
    }

    /// The path moved by `(dx, dy)`.
    pub fn translate(&self, dx: i64, dy: i64) -> (p: Path)
        requires
            self.wf(),
            -4 * COORD_LIMIT <= dx <= 4 * COORD_LIMIT,
            -4 * COORD_LIMIT <= dy <= 4 * COORD_LIMIT,
        ensures
            p == self.moved(dx as int, dy as int),
    {
        match self {
            Path::Circle { center, radius } => Path::Circle {
                center: Point { x: center.x + dx, y: center.y + dy },
                radius: *radius,
            },
            Path::RoundedRect { rect, radius } => Path::RoundedRect {
                rect: Rect {
                    left: rect.left + dx,
                    top: rect.top + dy,
                    right: rect.right + dx,
                    bottom: rect.bottom + dy,
                },
                radius: *radius,
            },
        }
    }
}

/// The bounds of a path lie within twice the path's own limit, in order,
/// and hold every coordinate the path stores.
pub proof fn lemma_path_bounds(p: Path, lim: int)
    requires
        p.within(lim),
        0 <= lim <= COORD_LIMIT,
    ensures
        p.bounds_spec().within(2 * lim),
        p.bounds_spec().ordered(),
        p.inside(p.bounds_spec()),
{
}

/// Moving a path moves its bounds.
pub proof fn lemma_path_bounds_moved(p: Path, dx: int, dy: int)
    requires
        p.wf(),
        -4 * COORD_LIMIT <= dx <= 4 * COORD_LIMIT,
        -4 * COORD_LIMIT <= dy <= 4 * COORD_LIMIT,
    ensures
        p.moved(dx, dy).bounds_spec() == p.bounds_spec().moved(dx, dy),
{
}

/// One piece of an outline.
#[derive(Clone, Copy, Debug, PartialEq, Eq, Structural)]
pub enum Segment {
    MoveTo(Point),
    LineTo(Point),
    /// A cubic Bézier through two control points to the end point.
    CubicTo(Point, Point, Point),
}

pub open spec fn pt(x: int, y: int) -> Point {
    Point { x: x as i64, y: y as i64 }
}

/// `r * ARC_K_PPM / 1_000_000`: how far a corner's control points sit from
/// the ends of the arc, measured from the arc's centre line.
pub open spec fn arc_k(r: int) -> int {
    r * ARC_K_PPM / PPM as int
}

/// The outline of a rectangle with rounded corners: four edges, each
/// followed by a quarter-circle corner drawn as one cubic Bézier.
pub open spec fn rounded_rect_segments(l: int, t: int, r: int, b: int, rad: int) -> Seq<Segment> {
    let k = arc_k(rad);
    seq![
        Segment::MoveTo(pt(l + rad, t)),
        Segment::LineTo(pt(r - rad, t)),
        Segment::CubicTo(pt(r - rad + k, t), pt(r, t + rad - k), pt(r, t + rad)),
        Segment::LineTo(pt(r, b - rad)),
        Segment::CubicTo(pt(r, b - rad + k), pt(r - rad + k, b), pt(r - rad, b)),
        Segment::LineTo(pt(l + rad, b)),
        Segment::CubicTo(pt(l + rad - k, b), pt(l, b - rad + k), pt(l, b - rad)),
        Segment::LineTo(pt(l, t + rad)),
        Segment::CubicTo(pt(l, t + rad - k), pt(l + rad - k, t), pt(l + rad, t)),
    ]
}

/// The outline of the `width` by `height` rectangle at `(x, y)` with corners
/// rounded to `radius`.
pub fn rounded_rect(x: i64, y: i64, width: i64, height: i64, radius: i64) -> (s: Vec<Segment>)
    requires
        in_limit(x as int),
        in_limit(y as int),
        length_in_limit(width as int),
        length_in_limit(height as int),
        length_in_limit(radius as int),
    ensures
        s@ == rounded_rect_segments(x as int, y as int, x + width, y + height, radius as int),
{
    let l = x;
    let t = y;
    let r = x + width;
    let b = y + height;
    let rad = radius;
    assert(0 <= radius * ARC_K_PPM <= COORD_LIMIT * ARC_K_PPM) by (nonlinear_arith)
        requires
            0 <= radius <= COORD_LIMIT,
    ;
    let k = radius * ARC_K_PPM / PPM;
    assert(0 <= k <= radius) by (nonlinear_arith)
        requires
            k == radius * ARC_K_PPM / (PPM as int),
            0 <= radius,
    ;
    let mut s: Vec<Segment> = Vec::new();
    s.push(Segment::MoveTo(Point { x: l + rad, y: t }));
    s.push(Segment::LineTo(Point { x: r - rad, y: t }));
    s.push(
        Segment::CubicTo(
            Point { x: r - rad + k, y: t },
            Point { x: r, y: t + rad - k },
            Point { x: r, y: t + rad },
        ),
    );
    s.push(Segment::LineTo(Point { x: r, y: b - rad }));
    s.push(
        Segment::CubicTo(
            Point { x: r, y: b - rad + k },
            Point { x: r - rad + k, y: b },
            Point { x: r - rad, y: b },
        ),
    );
    s.push(Segment::LineTo(Point { x: l + rad, y: b }));
    s.push(
        Segment::CubicTo(
            Point { x: l + rad - k, y: b },
            Point { x: l, y: b - rad + k },
            Point { x: l, y: b - rad },
        ),
    );
    s.push(Segment::LineTo(Point { x: l, y: t + rad }));
    s.push(
        Segment::CubicTo(
            Point { x: l, y: t + rad - k },
            Point { x: l + rad - k, y: t },
            Point { x: l + rad, y: t },
        ),
    );
    assert(s@ =~= rounded_rect_segments(l as int, t as int, r as int, b as int, rad as int));
    s
}

/// The points a segment passes through or is pulled towards.
pub open spec fn segment_points(s: Segment) -> Seq<Point> {
    match s {
        Segment::MoveTo(p) => seq![p],
        Segment::LineTo(p) => seq![p],
        Segment::CubicTo(c1, c2, p) => seq![c1, c2, p],
    }
}

/// Every point of a rounded rectangle's outline, control points included,
/// lies within the bounds of its path.
pub proof fn lemma_rounded_rect_in_bounds(rect: Rect, radius: i64, i: int, j: int)
    requires
        rect.wf(),
        length_in_limit(radius as int),
        0 <= i < 9,
        0 <= j < segment_points(
            rounded_rect_segments(
                rect.left as int,
                rect.top as int,
                rect.right as int,
                rect.bottom as int,
                radius as int,
            )[i],
        ).len(),
    ensures
        ({
            let p = segment_points(
                rounded_rect_segments(
                    rect.left as int,
                    rect.top as int,
                    rect.right as int,
                    rect.bottom as int,
                    radius as int,
                )[i],
            )[j];
            (Path::RoundedRect { rect, radius }).bounds_spec().holds(p.x as int, p.y as int)
        }),
{
    let k = arc_k(radius as int);
    assert(0 <= k <= radius) by (nonlinear_arith)
        requires
            k == radius * ARC_K_PPM / (PPM as int),
            0 <= radius,
    ;
}

} // verus!
