use gamepad_overlay::color::Color;
use gamepad_overlay::config::{
    default_active, default_axis, default_fill, default_stick, Axis, Button, FillDir, Gamepad,
    Shape, Stick,
};
use gamepad_overlay::gamepad::{ColorPair, Inputs};
use gamepad_overlay::geometry::{
    combine, expand, rounded_rect, Path, Point, Rect, Segment, ARC_K_PPM, PPM,
};

const PX: i32 = 1000;

fn pad() -> Gamepad {
    Gamepad {
        active: default_active(),
        inactive: default_fill(),
        outline: None,
        outline_weight: None,
        button_shape: Shape::default(),
        axis_shape: default_axis(),
        stick_radius: default_stick(),
        gate_radius: None,
        fill_dir: FillDir::default(),
        buttons: vec![],
        sticks: vec![],
        axes: vec![],
    }
}

fn button(id: u8, x: i32, y: i32) -> Button {
    Button {
        id,
        pos: (x, y),
        shape: None,
        fill: None,
        fill_active: None,
        outline_weight: None,
        outline: None,
        outline_active: None,
    }
}

fn stick(x: i32, y: i32) -> Stick {
    Stick {
        pos: (x, y),
        axes: (0, 1),
        invert_x: false,
        invert_y: false,
        deadzone: None,
        radius: None,
        displacement: None,
        fill: None,
        fill_active: None,
        outline_weight: None,
        outline: None,
        outline_active: None,
        gate_radius: None,
        gate_weight: None,
        gate: None,
        gate_active: None,
    }
}

fn axis(x: i32, y: i32) -> Axis {
    Axis {
        pos: (x, y),
        id: 2,
        invert: false,
        shape: None,
        fill_dir: None,
        fill: None,
        fill_active: None,
        outline_weight: None,
        outline: None,
    }
}

#[test]
fn no_outline_anywhere_gives_none() {
    let p = pad();
    assert_eq!(button(0, 0, 0).load(&p).outline, None);
    assert_eq!(stick(0, 0).load(&p).outline, None);
    assert_eq!(axis(0, 0).load(&p).outline, None);
}

#[test]
fn any_outline_field_gives_an_outline() {
    let red = Color::new(255, 0, 0, 255);
    let mut p = pad();
    p.outline_weight = Some(3 * PX as u32);
    assert_eq!(
        button(0, 0, 0).load(&p).outline,
        Some((ColorPair::new(Color::default(), Color::default()), 3000))
    );
    let mut p = pad();
    p.outline = Some(red);
    assert_eq!(button(0, 0, 0).load(&p).outline, Some((ColorPair::new(red, red), 2000)));
    assert_eq!(axis(0, 0).load(&p).outline, Some((red, 2000)));
    let p = pad();
    let mut b = button(0, 0, 0);
    b.outline_active = Some(red);
    assert_eq!(b.load(&p).outline, Some((ColorPair::new(red, Color::default()), 2000)));
    let mut s = stick(0, 0);
    s.outline_weight = Some(5);
    assert_eq!(
        s.load(&p).outline,
        Some((ColorPair::new(Color::default(), Color::default()), 5))
    );
    let mut a = axis(0, 0);
    a.outline = Some(red);
    assert_eq!(a.load(&p).outline, Some((red, 2000)));
}

#[test]
fn fill_colors_cascade() {
    let mut p = pad();
    let b = button(0, 0, 0).load(&p);
    assert_eq!(b.fill, ColorPair::new(default_active(), default_fill()));
    let green = Color::new(0, 255, 0, 255);
    p.active = green;
    let mut bc = button(0, 0, 0);
    bc.fill = Some(Color::new(1, 2, 3, 4));
    assert_eq!(bc.load(&p).fill, ColorPair::new(green, Color::new(1, 2, 3, 4)));
}

#[test]
fn stick_defaults() {
    let p = pad();
    let s = stick(50 * PX, 60 * PX).load(&p);
    assert_eq!(s.path, Path::Circle { center: Point { x: 50_000, y: 60_000 }, radius: 40_000 });
    assert_eq!(s.displacement, 30_000);
    assert_eq!(s.deadzone, 50_000);
    assert!(s.gate.is_none());
    let mut g = stick(0, 0);
    g.gate = Some(Color::new(9, 9, 9, 9));
    let s = g.load(&p);
    let (path, colors, weight) = s.gate.unwrap();
    assert_eq!(path, Path::Circle { center: Point { x: 0, y: 0 }, radius: 60_000 });
    assert_eq!(colors, ColorPair::new(Color::new(9, 9, 9, 9), Color::new(9, 9, 9, 9)));
    assert_eq!(weight, 4000);
}

#[test]
fn axis_takes_its_shapes_rectangle() {
    let p = pad();
    let a = axis(10 * PX, 20 * PX).load(&p);
    assert_eq!(a.path, Rect { left: 10_000, top: 20_000, right: 130_000, bottom: 40_000 });
    assert_eq!(a.direction, FillDir::LeftToRight);
    let mut c = axis(10 * PX, 20 * PX);
    c.shape = Some(Shape::Circle { radius: 5000 });
    c.fill_dir = Some(FillDir::BottomToTop);
    let a = c.load(&p);
    assert_eq!(a.path, Rect { left: 5000, top: 15_000, right: 15_000, bottom: 25_000 });
    assert_eq!(a.direction, FillDir::BottomToTop);
}

#[test]
fn rounded_rect_outline() {
    let s = rounded_rect(0, 0, 100, 40, 10);
    let k = 10 * ARC_K_PPM / PPM;
    assert_eq!(k, 5);
    assert_eq!(s.len(), 9);
    assert_eq!(s[0], Segment::MoveTo(Point { x: 10, y: 0 }));
    assert_eq!(s[1], Segment::LineTo(Point { x: 90, y: 0 }));
    assert_eq!(
        s[2],
        Segment::CubicTo(Point { x: 95, y: 0 }, Point { x: 100, y: 5 }, Point { x: 100, y: 10 })
    );
    assert_eq!(s[8], Segment::CubicTo(Point { x: 0, y: 5 }, Point { x: 5, y: 0 }, Point { x: 10, y: 0 }));
    let square = rounded_rect(0, 0, 100, 40, 0);
    assert_eq!(square[2], Segment::CubicTo(Point { x: 100, y: 0 }, Point { x: 100, y: 0 }, Point { x: 100, y: 0 }));
}

#[test]
fn rect_union_and_growth() {
    let a = Rect { left: 0, top: 5, right: 10, bottom: 20 };
    let b = Rect { left: -3, top: 7, right: 4, bottom: 30 };
    assert_eq!(combine(a, b), Rect { left: -3, top: 5, right: 10, bottom: 30 });
    assert_eq!(expand(a, 2), Rect { left: -2, top: 3, right: 12, bottom: 22 });
    assert_eq!(Rect::from_ltrb(1, 1, 0, 5), None);
}

#[test]
fn resolved_layout_starts_at_origin() {
    let mut p = pad();
    p.buttons = vec![button(0, 10 * PX, 10 * PX), button(1, -40 * PX, 5 * PX)];
    p.sticks = vec![stick(200 * PX, 300 * PX)];
    p.axes = vec![axis(-7 * PX, -9 * PX)];
    let inputs = Inputs::resolve(&p);
    let b = inputs.bounds();
    assert_eq!((b.left, b.top), (0, 0));
    // The stick's reach (radius 40 + travel 30) sets the right and bottom edges.
    assert_eq!(b.right, 270 * 1000 + 55 * 1000);
    assert_eq!(b.bottom, 370 * 1000 + 10 * 1000);
}

#[test]
fn single_button_layout() {
    let mut p = pad();
    let mut b = button(0, 10 * PX, 10 * PX);
    b.shape = Some(Shape::Circle { radius: 10 * PX as u32 });
    p.buttons = vec![b];
    let inputs = Inputs::resolve(&p);
    assert_eq!(
        inputs.buttons[0].path,
        Path::Circle { center: Point { x: 10_000, y: 10_000 }, radius: 10_000 }
    );
    assert_eq!(inputs.canvas_size(), (20, 20));
}

#[test]
fn minimize_moves_everything() {
    let mut p = pad();
    let mut b = button(0, 50 * PX, 60 * PX);
    b.outline_weight = Some(2 * PX as u32);
    p.buttons = vec![b];
    let mut inputs = Inputs::resolve(&p);
    // Circle of 15 pixels grown by a 2 pixel outline.
    assert_eq!(
        inputs.buttons[0].path,
        Path::Circle { center: Point { x: 17_000, y: 17_000 }, radius: 15_000 }
    );
    inputs.minimize();
    assert_eq!(inputs.bounds(), Rect { left: 0, top: 0, right: 34_000, bottom: 34_000 });
}

#[test]
fn empty_layout_has_placeholder_canvas() {
    let inputs = Inputs::resolve(&pad());
    assert_eq!(inputs.bounds(), Rect { left: 0, top: 0, right: 100_000, bottom: 100_000 });
    assert_eq!(inputs.canvas_size(), (100, 100));
}

#[test]
fn minimize_of_loaded_entities() {
    let p = pad();
    let mut inputs = Inputs {
        buttons: vec![button(0, -30 * PX, 70 * PX).load(&p)],
        sticks: vec![stick(400 * PX, 200 * PX).load(&p)],
        axes: vec![axis(5 * PX, -60 * PX).load(&p)],
    };
    assert_eq!(inputs.bounds().left, -45_000);
    inputs.minimize();
    let b = inputs.bounds();
    assert_eq!((b.left, b.top), (0, 0));
    assert_eq!(
        inputs.buttons[0].path,
        Path::Circle { center: Point { x: 15_000, y: 130_000 }, radius: 15_000 }
    );
}
