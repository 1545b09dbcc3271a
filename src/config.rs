//! The declarative layout: gamepad-wide defaults and the buttons, sticks and
//! axes to draw, with optional styling that cascades from the entity to the
//! gamepad to fixed defaults. `load` resolves each entity into geometry.
//!
//! Lengths and positions are in `1 / UNITS_PER_PX` pixel units; a stick's
//! deadzone is in normalised units, where `NORM_ONE` is a full deflection.

use vstd::prelude::*;

use crate::color::Color;
use crate::gamepad::{self, ColorPair, RawAxis, CONFIG_LIMIT};
use crate::geometry::{Path, Point, Rect, UNITS_PER_PX};

verus! {

/// The footprint of a button or an axis.
#[derive(Clone, Copy, Debug, PartialEq, Eq)]
pub enum Shape {
    /// A `size.0` by `size.1` rectangle whose top-left corner is the entity's
    /// position, with corners rounded to `radius` (square when absent).
    RoundedRect { size: (u32, u32), radius: Option<u32> },
    /// A circle around the entity's position.
    Circle { radius: u32 },
}

impl Default for Shape {
    /// A circle of 15 pixels.
    fn default() -> (s: Shape)
        ensures
            s == (Shape::Circle { radius: (15 * UNITS_PER_PX) as u32 }),
    {
        Shape::Circle { radius: 15 * UNITS_PER_PX as u32 }
    }
}

/// The edge an axis fills from.
#[derive(Clone, Copy, Debug, PartialEq, Eq, Structural)]
pub enum FillDir {
    TopToBottom,
    LeftToRight,
    BottomToTop,
    RightToLeft,
}

impl Default for FillDir {
    fn default() -> (d: FillDir)
        ensures
            d == FillDir::LeftToRight,
    {
        FillDir::LeftToRight
    }
}

#[derive(Clone, Copy, Debug, PartialEq, Eq)]
pub struct Button {
    pub id: u8,
    pub pos: (i32, i32),
    pub shape: Option<Shape>,
    pub fill: Option<Color>,
    pub fill_active: Option<Color>,
    pub outline_weight: Option<u32>,
    pub outline: Option<Color>,
    pub outline_active: Option<Color>,
}

#[derive(Clone, Copy, Debug, PartialEq, Eq)]
pub struct Stick {
    pub pos: (i32, i32),
    /// The device axes for x and y.
    pub axes: (u8, u8),
    pub invert_x: bool,
    pub invert_y: bool,
    pub deadzone: Option<u32>,
    pub radius: Option<u32>,
    pub displacement: Option<u32>,
    pub fill: Option<Color>,
    pub fill_active: Option<Color>,
    pub outline_weight: Option<u32>,
    pub outline: Option<Color>,
    pub outline_active: Option<Color>,
    pub gate_radius: Option<u32>,
    pub gate_weight: Option<u32>,
    pub gate: Option<Color>,
    pub gate_active: Option<Color>,
}

#[derive(Clone, Copy, Debug, PartialEq, Eq)]
pub struct Axis {
    pub pos: (i32, i32),
    pub id: u8,
    pub invert: bool,
    pub shape: Option<Shape>,
    pub fill_dir: Option<FillDir>,
    pub fill: Option<Color>,
    pub fill_active: Option<Color>,
    pub outline_weight: Option<u32>,
    pub outline: Option<Color>,
}

/// Gamepad-wide defaults and the entities, in drawing order per kind.
#[derive(Clone, Debug)]
pub struct Gamepad {
    pub active: Color,
    pub inactive: Color,
    pub outline: Option<Color>,
    pub outline_weight: Option<u32>,
    pub button_shape: Shape,
    pub axis_shape: Shape,
    pub stick_radius: u32,
    pub gate_radius: Option<u32>,
    pub fill_dir: FillDir,
    pub buttons: Vec<Button>,
    pub sticks: Vec<Stick>,
    pub axes: Vec<Axis>,
}

/// Default inactive fill.
pub fn default_fill() -> (c: Color)
    ensures
        c == (Color { r: 127, g: 127, b: 127, a: 127 }),
{
    Color::new(127, 127, 127, 127)
}

/// Default active fill.
pub fn default_active() -> (c: Color)
    ensures
        c == (Color { r: 34, g: 59, b: 224, a: 200 }),
{
    Color::new(34, 59, 224, 200)
}

/// Default stick radius: 40 pixels.
pub fn default_stick() -> (r: u32)
    ensures
        r == 40 * UNITS_PER_PX,
{
    40 * UNITS_PER_PX as u32
}

/// Default axis shape: 120 by 20 pixels with 5 pixel corners.
pub fn default_axis() -> (s: Shape)
    ensures
        s == (Shape::RoundedRect {
            size: ((120 * UNITS_PER_PX) as u32, (20 * UNITS_PER_PX) as u32),
            radius: Some((5 * UNITS_PER_PX) as u32),
        }),
{
    Shape::RoundedRect {
        size: (120 * UNITS_PER_PX as u32, 20 * UNITS_PER_PX as u32),
        radius: Some(5 * UNITS_PER_PX as u32),
    }
}

/// Outline weight when neither the entity nor the gamepad gives one.
pub const DEFAULT_OUTLINE_WEIGHT: u32 = 2000;

/// Gate weight when no weight is given anywhere.
pub const DEFAULT_GATE_WEIGHT: u32 = 4000;

/// Stick deadzone when the stick gives none: 5% of a full deflection.
pub const DEFAULT_DEADZONE: u32 = 50_000;

impl Gamepad {
    pub open spec fn has_default_outline(&self) -> bool {
        self.outline_weight is Some || self.outline is Some
    }

    /// Whether the gamepad declares an outline for every entity.
    pub fn default_outline(&self) -> (r: bool)
        ensures
            r == self.has_default_outline(),
    {
        self.outline_weight.is_some() || self.outline.is_some()
    }
}

/// `a` when present, else `b`.
pub open spec fn either<T>(a: Option<T>, b: Option<T>) -> Option<T> {
    if a is Some {
        a
    } else {
        b
    }
}

fn or<T>(a: Option<T>, b: Option<T>) -> (r: Option<T>)
    ensures
        r == either(a, b),
{
    match a {
        Some(v) => Some(v),
        None => b,
    }
}

pub open spec fn black() -> Color {
    Color { r: 0, g: 0, b: 0, a: 255 }
}

/// The path a shape describes at position `(x, y)`.
pub open spec fn shape_path(shape: Shape, x: i32, y: i32) -> Path {
    match shape {
        Shape::Circle { radius } => Path::Circle {
            center: Point { x: x as i64, y: y as i64 },
            radius: radius as i64,
        },
        Shape::RoundedRect { size, radius } => Path::RoundedRect {
            rect: Rect {
                left: x as i64,
                top: y as i64,
                right: (x + size.0) as i64,
                bottom: (y + size.1) as i64,
            },
            radius: radius.unwrap_or(0) as i64,
        },
    }
}

fn make_path(shape: Shape, x: i32, y: i32) -> (p: Path)
    ensures
        p == shape_path(shape, x, y),
        p.wf(),
{
    match shape {
        Shape::Circle { radius } => Path::Circle {
            center: Point { x: x as i64, y: y as i64 },
            radius: radius as i64,
        },
        Shape::RoundedRect { size, radius } => Path::RoundedRect {
            rect: Rect {
                left: x as i64,
                top: y as i64,
                right: x as i64 + size.0 as i64,
                bottom: y as i64 + size.1 as i64,
            },
            radius: radius.unwrap_or(0) as i64,
        },
    }
}

/// The colors of an entity's fill: its own, else the gamepad's.
pub open spec fn fill_pair(
    fill: Option<Color>,
    fill_active: Option<Color>,
    pad: Gamepad,
) -> ColorPair {
    ColorPair { active: fill_active.unwrap_or(pad.active), inactive: fill.unwrap_or(pad.inactive) }
}

/// The colors of an entity's outline: the active one falls back to the
/// entity's outline, then the gamepad's, then black; the inactive one
/// skips the first step.
pub open spec fn outline_pair(
    outline: Option<Color>,
    outline_active: Option<Color>,
    pad: Gamepad,
) -> ColorPair {
    ColorPair {
        active: either(outline_active, either(outline, pad.outline)).unwrap_or(black()),
        inactive: either(outline, pad.outline).unwrap_or(black()),
    }
}

pub open spec fn outline_weight(weight: Option<u32>, pad: Gamepad) -> i64 {
    either(weight, pad.outline_weight).unwrap_or(DEFAULT_OUTLINE_WEIGHT) as i64
}

impl Button {
    /// What `load` makes of the button.
    pub open spec fn resolved(self, pad: Gamepad) -> gamepad::Button {
        gamepad::Button {
            id: self.id,
            path: shape_path(self.shape.unwrap_or(pad.button_shape), self.pos.0, self.pos.1),
            fill: fill_pair(self.fill, self.fill_active, pad),
            outline: if pad.has_default_outline() || self.outline_weight is Some
                || self.outline is Some || self.outline_active is Some {
                Some(
                    (
                        outline_pair(self.outline, self.outline_active, pad),
                        outline_weight(self.outline_weight, pad),
                    ),
                )
            } else {
                None
            },
        }
    }

    /// Resolves the button against the gamepad's defaults.
    pub fn load(&self, config: &Gamepad) -> (b: gamepad::Button)
        ensures
            b == self.resolved(*config),
            b.within(CONFIG_LIMIT as int),
    {
        let outline_active = or(self.outline_active, or(self.outline, config.outline)).unwrap_or(
            Color::default(),
        );
        let outline_inactive = or(self.outline, config.outline).unwrap_or(Color::default());
        let weight = or(self.outline_weight, config.outline_weight).unwrap_or(
            DEFAULT_OUTLINE_WEIGHT,
        );
        let (x, y) = self.pos;
        let outline = if config.default_outline() || self.outline_weight.is_some()
            || self.outline.is_some() || self.outline_active.is_some() {
            Some((ColorPair::new(outline_active, outline_inactive), weight as i64))
        } else {
            None
        };
        gamepad::Button {
            id: self.id,
            path: make_path(self.shape.unwrap_or(config.button_shape), x, y),
            fill: ColorPair::new(
                self.fill_active.unwrap_or(config.active),
                self.fill.unwrap_or(config.inactive),
            ),
            outline,
        }
    }
}

impl Stick {
    pub open spec fn radius_of(self, pad: Gamepad) -> int {
        self.radius.unwrap_or(pad.stick_radius) as int
    }

    /// What `load` makes of the stick.
    pub open spec fn resolved(self, pad: Gamepad) -> gamepad::Stick {
        let r = self.radius_of(pad);
        let center = Point { x: self.pos.0 as i64, y: self.pos.1 as i64 };
        let gate_radius = match either(self.gate_radius, pad.gate_radius) {
            Some(g) => g as int,
            None => r * 3 / 2,
        };
        gamepad::Stick {
            x: RawAxis { id: self.axes.0, invert: self.invert_x },
            y: RawAxis { id: self.axes.1, invert: self.invert_y },
            deadzone: self.deadzone.unwrap_or(DEFAULT_DEADZONE) as i64,
            path: Path::Circle { center, radius: r as i64 },
            displacement: match self.displacement {
                Some(d) => d as i64,
                None => (r * 3 / 4) as i64,
            },
            fill: fill_pair(self.fill, self.fill_active, pad),
            outline: if pad.has_default_outline() || self.outline_weight is Some
                || self.outline is Some || self.outline_active is Some {
                Some(
                    (
                        outline_pair(self.outline, self.outline_active, pad),
                        outline_weight(self.outline_weight, pad),
                    ),
                )
            } else {
                None
            },
            gate: if self.gate_radius is Some || self.gate_weight is Some || self.gate is Some
                || self.gate_active is Some {
                Some(
                    (
                        Path::Circle { center, radius: gate_radius as i64 },
                        ColorPair {
                            active: either(self.gate_active, either(self.gate, pad.outline)).unwrap_or(
                                black(),
                            ),
                            inactive: either(self.gate, pad.outline).unwrap_or(black()),
                        },
                        either(self.gate_weight, either(self.outline_weight, pad.outline_weight)).unwrap_or(
                            DEFAULT_GATE_WEIGHT,
                        ) as i64,
                    ),
                )
            } else {
                None
            },
        }
    }

    /// Resolves the stick against the gamepad's defaults.
    pub fn load(&self, config: &Gamepad) -> (s: gamepad::Stick)
        ensures
            s == self.resolved(*config),
            s.within(CONFIG_LIMIT as int),
    {
        let r = self.radius.unwrap_or(config.stick_radius) as i64;
        let outline_active = or(self.outline_active, or(self.outline, config.outline)).unwrap_or(
            Color::default(),
        );
        let outline_inactive = or(self.outline, config.outline).unwrap_or(Color::default());
        let outline_weight = or(self.outline_weight, config.outline_weight).unwrap_or(
            DEFAULT_OUTLINE_WEIGHT,
        );
        let (x, y) = self.pos;
        let center = Point { x: x as i64, y: y as i64 };
        let gate_radius = match or(self.gate_radius, config.gate_radius) {
            Some(g) => g as i64,
            None => r * 3 / 2,
        };
        let gate_active = or(self.gate_active, or(self.gate, config.outline)).unwrap_or(
            Color::default(),
        );
        let gate_inactive = or(self.gate, config.outline).unwrap_or(Color::default());
        let gate_weight = or(self.gate_weight, or(self.outline_weight, config.outline_weight)).unwrap_or(
            DEFAULT_GATE_WEIGHT,
        );
        let outline = if config.default_outline() || self.outline_weight.is_some()
            || self.outline.is_some() || self.outline_active.is_some() {
            Some((ColorPair::new(outline_active, outline_inactive), outline_weight as i64))
        } else {
            None
        };
        let gate = if self.gate_radius.is_some() || self.gate_weight.is_some() || self.gate.is_some()
            || self.gate_active.is_some() {
            Some(
                (
                    Path::Circle { center, radius: gate_radius },
                    ColorPair::new(gate_active, gate_inactive),
                    gate_weight as i64,
                ),
            )
        } else {
            None
        };
        gamepad::Stick {
            x: RawAxis { id: self.axes.0, invert: self.invert_x },
            y: RawAxis { id: self.axes.1, invert: self.invert_y },
            deadzone: self.deadzone.unwrap_or(DEFAULT_DEADZONE) as i64,
            path: Path::Circle { center, radius: r },
            displacement: match self.displacement {
                Some(d) => d as i64,
                None => r * 3 / 4,
            },
            fill: ColorPair::new(
                self.fill_active.unwrap_or(config.active),
                self.fill.unwrap_or(config.inactive),
            ),
            outline,
            gate,
        }
    }
}

impl Axis {
    /// What `load` makes of the axis.
    pub open spec fn resolved(self, pad: Gamepad) -> gamepad::Axis {
        gamepad::Axis {
            axis: RawAxis { id: self.id, invert: self.invert },
            path: shape_path(
                self.shape.unwrap_or(pad.axis_shape),
                self.pos.0,
                self.pos.1,
            ).bounds_spec(),
            direction: self.fill_dir.unwrap_or(pad.fill_dir),
            fill: fill_pair(self.fill, self.fill_active, pad),
            outline: if pad.has_default_outline() || self.outline is Some
                || self.outline_weight is Some {
                Some(
                    (
                        either(self.outline, pad.outline).unwrap_or(black()),
                        outline_weight(self.outline_weight, pad),
                    ),
                )
            } else {
                None
            },
        }
    }

    /// Resolves the axis against the gamepad's defaults.
    pub fn load(&self, config: &Gamepad) -> (a: gamepad::Axis)
        ensures
            a == self.resolved(*config),
            a.within(CONFIG_LIMIT as int),
    {
        let (x, y) = self.pos;
        let path = make_path(self.shape.unwrap_or(config.axis_shape), x, y).bounds();
        let weight = or(self.outline_weight, config.outline_weight).unwrap_or(
            DEFAULT_OUTLINE_WEIGHT,
        );
        let outline = if config.default_outline() || self.outline.is_some()
            || self.outline_weight.is_some() {
            Some((or(self.outline, config.outline).unwrap_or(Color::default()), weight as i64))
        } else {
            None
        };
        gamepad::Axis {
            axis: RawAxis { id: self.id, invert: self.invert },
            path,
            direction: self.fill_dir.unwrap_or(config.fill_dir),
            fill: ColorPair::new(
                self.fill_active.unwrap_or(config.active),
                self.fill.unwrap_or(config.inactive),
            ),
            outline,
        }
    }
}

/// A button, stick or axis gets an outline exactly when the gamepad declares
/// an outline color or weight, or the entity declares an outline color,
/// active outline color or weight.
pub proof fn lemma_outline_presence(b: Button, s: Stick, a: Axis, pad: Gamepad)
    ensures
        b.resolved(pad).outline is Some <==> (pad.outline is Some || pad.outline_weight is Some
            || b.outline is Some || b.outline_active is Some || b.outline_weight is Some),
        s.resolved(pad).outline is Some <==> (pad.outline is Some || pad.outline_weight is Some
            || s.outline is Some || s.outline_active is Some || s.outline_weight is Some),
        a.resolved(pad).outline is Some <==> (pad.outline is Some || pad.outline_weight is Some
            || a.outline is Some || a.outline_weight is Some),
{
}

} // verus!
