use std::sync::atomic::{AtomicU64, Ordering};
use std::sync::Arc;

use gamepad_overlay::color::Color;
use gamepad_overlay::config::{
    default_active, default_axis, default_fill, default_stick, Axis, Button, FillDir, Gamepad,
    Shape, Stick,
};
use gamepad_overlay::gamepad::{self, BackendInit, InputState, Inputs, NORM_ONE};
use gamepad_overlay::geometry::{Path, Point, Rect};
use gamepad_overlay::haybox::{decode_line, Haybox};
use gamepad_overlay::normalize::{axis_active, normalized, percent, stick_active, AxisRange};
use gamepad_overlay::render::{active_rect, isqrt, render, stick_offset, DrawCommand};
use gamepad_overlay::usb::{BackendError, DeviceEvent, DeviceLayout, EventKind, UsbGamepad};

const PX: i32 = 1000;

fn pad() -> Gamepad {
    Gamepad {
        active: default_active(),
        inactive: default_fill(),
        outline: None,
        outline_weight: None,
        button_shape: Shape::default(),
        axis_shape: default_axis(),
        stick_radius: default_stick(),
        gate_radius: None,
        fill_dir: FillDir::default(),
        buttons: vec![],
        sticks: vec![],
        axes: vec![],
    }
}

fn button(id: u8) -> Button {
    Button {
        id,
        pos: (10 * PX, 10 * PX),
        shape: Some(Shape::Circle { radius: 10 * PX as u32 }),
        fill: None,
        fill_active: None,
        outline_weight: None,
        outline: None,
        outline_active: None,
    }
}

fn stick() -> Stick {
    Stick {
        pos: (0, 0),
        axes: (0, 1),
        invert_x: false,
        invert_y: true,
        deadzone: None,
        radius: None,
        displacement: None,
        fill: None,
        fill_active: None,
        outline_weight: None,
        outline: None,
        outline_active: None,
        gate_radius: None,
        gate_weight: None,
        gate: None,
        gate_active: None,
    }
}

fn axis(id: u8, dir: FillDir) -> Axis {
    Axis {
        pos: (0, 0),
        id,
        invert: false,
        shape: Some(Shape::RoundedRect { size: (100 * PX as u32, 40 * PX as u32), radius: None }),
        fill_dir: Some(dir),
        fill: None,
        fill_active: None,
        outline_weight: None,
        outline: None,
    }
}

#[test]
fn range_ends_map_to_full_deflection() {
    let r = AxisRange { min: -32768, max: 32767 };
    assert_eq!(normalized(-32768, r, false), -NORM_ONE);
    assert_eq!(normalized(32767, r, false), NORM_ONE);
    assert_eq!(normalized(0, r, false), 15);
    assert_eq!(normalized(0, r, true), -15);
    assert_eq!(normalized(40000, r, false), NORM_ONE);
    let flipped = AxisRange { min: 255, max: 0 };
    assert_eq!(normalized(255, flipped, false), -NORM_ONE);
    assert_eq!(normalized(0, flipped, false), NORM_ONE);
    assert_eq!(normalized(7, AxisRange { min: 3, max: 3 }, false), 0);
}

#[test]
fn deadzone_band() {
    let r = AxisRange { min: 0, max: 100 };
    assert!(!axis_active(60, r, Some(10)));
    assert!(axis_active(61, r, Some(10)));
    assert!(!axis_active(40, r, Some(10)));
    assert!(axis_active(39, r, Some(10)));
    assert!(axis_active(50, r, None));
    assert!(!stick_active(50_000, -50_000, 50_000));
    assert!(stick_active(0, -50_001, 50_000));
}

#[test]
fn axis_fill_percent() {
    assert_eq!(percent(-NORM_ONE), 0);
    assert_eq!(percent(0), NORM_ONE / 2);
    assert_eq!(percent(NORM_ONE), NORM_ONE);
}

#[test]
fn active_rect_per_direction() {
    let r = Rect { left: 0, top: 0, right: 100_000, bottom: 40_000 };
    let quarter = NORM_ONE / 4;
    assert_eq!(active_rect(r, FillDir::LeftToRight, quarter).right, 75_000);
    assert_eq!(active_rect(r, FillDir::TopToBottom, quarter).bottom, 30_000);
    assert_eq!(active_rect(r, FillDir::BottomToTop, quarter).top, 10_000);
    assert_eq!(active_rect(r, FillDir::RightToLeft, quarter).left, 25_000);
    assert_eq!(
        active_rect(r, FillDir::BottomToTop, quarter),
        Rect { left: 0, top: 10_000, right: 100_000, bottom: 40_000 }
    );
    assert_eq!(
        active_rect(r, FillDir::RightToLeft, quarter),
        Rect { left: 25_000, top: 0, right: 100_000, bottom: 40_000 }
    );
    assert_eq!(
        active_rect(r, FillDir::LeftToRight, quarter),
        Rect { left: 0, top: 0, right: 75_000, bottom: 40_000 }
    );
}

#[test]
fn square_roots() {
    assert_eq!(isqrt(0), 0);
    assert_eq!(isqrt(15), 3);
    assert_eq!(isqrt(16), 4);
    assert_eq!(isqrt(1_000_000_000_000), 1_000_000);
    assert_eq!(isqrt(u64::MAX), 0xffff_ffff);
}

#[test]
fn stick_travel_is_round() {
    assert_eq!(stick_offset(30_000, NORM_ONE, 0), Point { x: 30_000, y: 0 });
    assert_eq!(stick_offset(30_000, -NORM_ONE, 0), Point { x: -30_000, y: 0 });
    assert_eq!(stick_offset(30_000, NORM_ONE, NORM_ONE), Point { x: 21_213, y: 21_213 });
    assert_eq!(stick_offset(30_000, 0, 0), Point { x: 0, y: 0 });
}

#[test]
fn fresh_state() {
    let mut p = pad();
    p.buttons = vec![button(0)];
    p.sticks = vec![stick()];
    p.axes = vec![axis(2, FillDir::LeftToRight)];
    let s = InputState::new(&Inputs::resolve(&p));
    assert_eq!(s.buttons, vec![false]);
    assert_eq!(s.sticks, vec![(0, 0)]);
    assert_eq!(s.axes, vec![NORM_ONE / 2]);
}

#[test]
fn frame_of_one_button() {
    let mut p = pad();
    p.buttons = vec![button(0)];
    let mut g = gamepad::Gamepad::new(&p);
    let path = Path::Circle { center: Point { x: 10_000, y: 10_000 }, radius: 10_000 };
    let origin = Point { x: 0, y: 0 };
    assert_eq!(
        g.render(),
        vec![
            DrawCommand::Clear,
            DrawCommand::FillPath { path, color: default_fill(), offset: origin },
        ]
    );
    g.input_state.buttons[0] = true;
    assert_eq!(
        g.render()[1],
        DrawCommand::FillPath { path, color: default_active(), offset: origin }
    );
}

#[test]
fn frame_order_and_axis_fill() {
    let mut p = pad();
    p.outline = Some(Color::new(1, 1, 1, 255));
    p.buttons = vec![button(0)];
    p.sticks = vec![stick()];
    p.axes = vec![axis(2, FillDir::LeftToRight)];
    let inputs = Inputs::resolve(&p);
    let mut state = InputState::new(&inputs);
    state.axes[0] = NORM_ONE / 4;
    state.sticks[0] = (NORM_ONE, NORM_ONE);
    let cmds = render(&inputs, &state);
    assert_eq!(cmds.len(), 1 + 2 + 3 + 2);
    assert_eq!(cmds[0], DrawCommand::Clear);
    assert!(matches!(cmds[1], DrawCommand::FillPath { .. }));
    assert!(matches!(cmds[2], DrawCommand::StrokePath { .. }));
    let rect = inputs.axes[0].path;
    assert_eq!(cmds[3], DrawCommand::FillRect { rect, color: default_fill() });
    let filled = Rect { right: rect.right - 25_000, ..rect };
    assert_eq!(cmds[4], DrawCommand::FillRect { rect: filled, color: default_active() });
    assert!(matches!(cmds[5], DrawCommand::StrokeRect { .. }));
    // Only the stick's y axis is inverted.
    match cmds[6] {
        DrawCommand::FillPath { offset, color, .. } => {
            assert_eq!(offset, Point { x: 21_213, y: -21_213 });
            assert_eq!(color, default_active());
        }
        _ => panic!("expected the stick's fill"),
    }
}

fn one_button_usb() -> (Inputs, UsbGamepad) {
    let mut p = pad();
    p.buttons = vec![button(0)];
    let inputs = Inputs::resolve(&p);
    let layout = DeviceLayout { buttons: vec![288, 289], axes: vec![] };
    let usb = UsbGamepad::init(0, Some(&layout), &inputs).unwrap();
    (inputs, usb)
}

#[test]
fn press_and_release_change_once_each() {
    let (inputs, usb) = one_button_usb();
    let mut state = InputState::new(&inputs);
    let press = DeviceEvent { device: 0, kind: EventKind::ButtonPressed(288) };
    let release = DeviceEvent { device: 0, kind: EventKind::ButtonReleased(288) };
    assert!(usb.poll(&mut state, &vec![press]));
    assert!(state.buttons[0]);
    assert!(!usb.poll(&mut state, &vec![press]));
    assert!(!usb.poll(&mut state, &vec![press, press]));
    assert!(usb.poll(&mut state, &vec![release]));
    assert!(!state.buttons[0]);
    assert!(!usb.poll(&mut state, &vec![]));
}

#[test]
fn events_of_other_devices_and_codes_are_ignored() {
    let (inputs, usb) = one_button_usb();
    let mut state = InputState::new(&inputs);
    let other_device = DeviceEvent { device: 1, kind: EventKind::ButtonPressed(288) };
    let other_code = DeviceEvent { device: 0, kind: EventKind::ButtonPressed(289) };
    let misc = DeviceEvent { device: 0, kind: EventKind::Other };
    assert!(!usb.poll(&mut state, &vec![other_device, other_code, misc]));
    assert!(!state.buttons[0]);
}

#[test]
fn axis_events_reach_sticks_and_axes() {
    let mut p = pad();
    p.sticks = vec![stick()];
    p.axes = vec![axis(2, FillDir::LeftToRight)];
    let inputs = Inputs::resolve(&p);
    let range = AxisRange { min: 0, max: 200 };
    let layout = DeviceLayout { buttons: vec![], axes: vec![(10, range), (11, range), (12, range)] };
    let usb = UsbGamepad::init(3, Some(&layout), &inputs).unwrap();
    let mut state = InputState::new(&inputs);
    let ev = |code: u32, raw: i32| DeviceEvent { device: 3, kind: EventKind::AxisValueChanged(raw, code) };
    assert!(usb.poll(&mut state, &vec![ev(10, 200), ev(11, 0)]));
    assert_eq!(state.sticks[0], (NORM_ONE, -NORM_ONE));
    assert!(usb.poll(&mut state, &vec![ev(12, 50)]));
    assert_eq!(state.axes[0], NORM_ONE / 4);
    assert!(!usb.poll(&mut state, &vec![ev(12, 50)]));
}

#[test]
fn missing_device_is_an_error() {
    let inputs = Inputs::resolve(&pad());
    assert!(matches!(UsbGamepad::init(4, None, &inputs), Err(BackendError::NoSuchDevice(4))));
}

#[test]
fn gamepad_end_to_end() {
    let mut p = pad();
    p.buttons = vec![button(0)];
    let mut g = gamepad::Gamepad::new(&p);
    let layout = DeviceLayout { buttons: vec![288], axes: vec![] };
    assert!(g.load(&p, BackendInit::Usb(0, Some(layout))).is_ok());
    let press = DeviceEvent { device: 0, kind: EventKind::ButtonPressed(288) };
    let release = DeviceEvent { device: 0, kind: EventKind::ButtonReleased(288) };
    assert!(g.poll(&vec![press]));
    assert!(!g.poll(&vec![press]));
    assert!(g.poll(&vec![release]));
    assert!(!g.poll(&vec![]));
}

#[test]
fn gamepad_without_backend_never_changes() {
    let mut g = gamepad::Gamepad::default();
    assert!(!g.poll(&vec![]));
    assert_eq!(g.render(), vec![DrawCommand::Clear]);
}

#[test]
fn serial_lines_decode_to_bits() {
    assert_eq!(decode_line(b"1010\n"), 0b101);
    assert_eq!(decode_line(b"0001"), 0b1000);
    assert_eq!(decode_line(b"11\n11"), 0b11);
    assert_eq!(decode_line(b"x1y1"), 0b1010);
    assert_eq!(decode_line(b""), 0);
    let long = [b'1'; 70];
    assert_eq!(decode_line(&long), u64::MAX);
}

#[test]
fn serial_frames_update_tracked_buttons() {
    let mut p = pad();
    p.buttons = vec![button(3), button(0)];
    let inputs = Inputs::resolve(&p);
    let cell = Arc::new(AtomicU64::new(0));
    let h = Haybox::init(cell.clone(), &inputs);
    let mut state = InputState::new(&inputs);
    assert!(!h.poll(&mut state));
    cell.store(decode_line(b"0001\n"), Ordering::Relaxed);
    assert!(h.poll(&mut state));
    assert_eq!(state.buttons, vec![true, false]);
    assert!(!h.poll(&mut state));
    assert!(h.apply_frame(&mut state, 0b1));
    assert_eq!(state.buttons, vec![false, true]);
}

#[test]
fn serial_backend_through_gamepad() {
    let mut p = pad();
    p.buttons = vec![button(1)];
    let cell = Arc::new(AtomicU64::new(0));
    let mut g = gamepad::Gamepad::new(&p);
    assert!(g.load(&p, BackendInit::Serial(cell.clone())).is_ok());
    cell.store(0b10, Ordering::Relaxed);
    assert!(g.poll(&vec![]));
    assert!(g.input_state.buttons[0]);
    g.reload(&p, None);
    assert!(!g.input_state.buttons[0]);
    assert!(g.poll(&vec![]));
}
