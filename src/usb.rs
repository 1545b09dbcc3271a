//! The USB/HID controller backend. The caller reads the device (its
//! button and axis codes, and the events it queued) and hands them over as
//! plain values; this module keeps the code-to-entity mapping and applies
//! events to the input state.

use std::collections::HashMap;

use vstd::prelude::*;

use crate::gamepad::{norm_in_range, Axis, Button, InputState, Inputs, Stick, NORM_ONE};
use crate::normalize::{normalized, normalized_spec, percent, percent_spec, AxisRange};

verus! {

broadcast use vstd::std_specs::hash::group_hash_axioms;

#[derive(Clone, Copy, Debug, PartialEq, Eq, Structural)]
pub enum Xy {
    X,
    Y,
}

/// Where a device axis goes: one coordinate of a stick, or a single axis.
#[derive(Clone, Copy, Debug, PartialEq, Eq, Structural)]
pub enum AxisIndex {
    Stick(usize, Xy),
    Single(usize),
}

/// A device axis's destination and the range the device reports it in.
#[derive(Clone, Copy, Debug, PartialEq, Eq, Structural)]
pub struct AxisTarget {
    pub index: AxisIndex,
    pub range: AxisRange,
}

/// What a connected device offers: the codes of its buttons, and the codes
/// and ranges of its axes, in the device's own order.
#[derive(Clone, Debug)]
pub struct DeviceLayout {
    pub buttons: Vec<u32>,
    pub axes: Vec<(u32, AxisRange)>,
}

#[derive(Clone, Copy, Debug, PartialEq, Eq, Structural)]
pub enum EventKind {
    ButtonPressed(u32),
    ButtonReleased(u32),
    /// A new raw value for the axis with the given code.
    AxisValueChanged(i32, u32),
    /// Anything else the device reports (connection changes and the like).
    Other,
}

/// An event of the device with index `device`.
#[derive(Clone, Copy, Debug, PartialEq, Eq, Structural)]
pub struct DeviceEvent {
    pub device: usize,
    pub kind: EventKind,
}

/// Why a backend could not start.
#[derive(Clone, Copy, Debug, PartialEq, Eq, Structural)]
pub enum BackendError {
    /// No device has this index.
    NoSuchDevice(usize),
    /// The serial port could not be opened.
    PortUnavailable,
}

/// Button code to button index: the later of two buttons on one code wins;
/// a button whose id the device does not have gets no entry.
pub open spec fn button_map(bs: Seq<Button>, codes: Seq<u32>, n: nat) -> Map<u32, usize>
    decreases n,
{
    if n == 0 {
        Map::empty()
    } else {
        let m = button_map(bs, codes, (n - 1) as nat);
        let id = bs[n - 1].id as int;
        if id < codes.len() {
            m.insert(codes[id], (n - 1) as usize)
        } else {
            m
        }
    }
}

/// `m` with the device axis `id` sent to `index`, if the device has it.
pub open spec fn map_axis(
    m: Map<u32, AxisTarget>,
    axes: Seq<(u32, AxisRange)>,
    id: u8,
    index: AxisIndex,
) -> Map<u32, AxisTarget> {
    if (id as int) < axes.len() {
        m.insert(axes[id as int].0, AxisTarget { index, range: axes[id as int].1 })
    } else {
        m
    }
}

/// The single axes' entries, in order.
pub open spec fn single_map(xs: Seq<Axis>, axes: Seq<(u32, AxisRange)>, n: nat) -> Map<
    u32,
    AxisTarget,
>
    decreases n,
{
    if n == 0 {
        Map::empty()
    } else {
        map_axis(
            single_map(xs, axes, (n - 1) as nat),
            axes,
            xs[n - 1].axis.id,
            AxisIndex::Single((n - 1) as usize),
        )
    }
}

/// The sticks' entries, x then y for each stick, over `base`.
pub open spec fn stick_map(
    ss: Seq<Stick>,
    axes: Seq<(u32, AxisRange)>,
    base: Map<u32, AxisTarget>,
    n: nat,
) -> Map<u32, AxisTarget>
    decreases n,
{
    if n == 0 {
        base
    } else {
        let i = (n - 1) as usize;
        let m = stick_map(ss, axes, base, (n - 1) as nat);
        let m = map_axis(m, axes, ss[n - 1].x.id, AxisIndex::Stick(i, Xy::X));
        map_axis(m, axes, ss[n - 1].y.id, AxisIndex::Stick(i, Xy::Y))
    }
}

/// Axis code to destination: single axes first, then sticks, a later
/// entry replacing an earlier one on the same code.
pub open spec fn axis_map(inputs: Inputs, axes: Seq<(u32, AxisRange)>) -> Map<u32, AxisTarget> {
    stick_map(
        inputs.sticks@,
        axes,
        single_map(inputs.axes@, axes, inputs.axes@.len()),
        inputs.sticks@.len(),
    )
}

/// The button, stick and axis values of an input state.
pub type Values = (Seq<bool>, Seq<(i64, i64)>, Seq<i64>);

pub open spec fn values_of(s: InputState) -> Values {
    (s.buttons@, s.sticks@, s.axes@)
}

/// The values after one event, and whether any of them changed. Events of
/// other devices, unmapped codes and indices past the state are ignored.
pub open spec fn apply_spec(
    buttons: Map<u32, usize>,
    axes: Map<u32, AxisTarget>,
    device: usize,
    v: Values,
    e: DeviceEvent,
) -> (Values, bool) {
    if e.device != device {
        (v, false)
    } else {
        match e.kind {
            EventKind::ButtonPressed(c) => set_button(buttons, v, c, true),
            EventKind::ButtonReleased(c) => set_button(buttons, v, c, false),
            EventKind::AxisValueChanged(raw, c) => {
                if axes.contains_key(c) {
                    let t = axes[c];
                    let n = normalized_spec(raw as int, t.range, false) as i64;
                    match t.index {
                        AxisIndex::Stick(i, xy) => {
                            if (i as int) < v.1.len() {
                                let old = v.1[i as int];
                                let new = if xy == Xy::X {
                                    (n, old.1)
                                } else {
                                    (old.0, n)
                                };
                                ((v.0, v.1.update(i as int, new), v.2), new != old)
                            } else {
                                (v, false)
                            }
                        },
                        AxisIndex::Single(i) => {
                            let p = percent_spec(n as int) as i64;
                            if (i as int) < v.2.len() {
                                ((v.0, v.1, v.2.update(i as int, p)), v.2[i as int] != p)
                            } else {
                                (v, false)
                            }
                        },
                    }
                } else {
                    (v, false)
                }
            },
            EventKind::Other => (v, false),
        }
    }
}

pub open spec fn set_button(buttons: Map<u32, usize>, v: Values, c: u32, pressed: bool) -> (
    Values,
    bool,
) {
    if buttons.contains_key(c) && (buttons[c] as int) < v.0.len() {
        let i = buttons[c] as int;
        ((v.0.update(i, pressed), v.1, v.2), v.0[i] != pressed)
    } else {
        (v, false)
    }
}

/// The values after the events in order, and whether any event changed
/// a value.
pub open spec fn apply_all(
    buttons: Map<u32, usize>,
    axes: Map<u32, AxisTarget>,
    device: usize,
    v: Values,
    es: Seq<DeviceEvent>,
) -> (Values, bool)
    decreases es.len(),
{
    if es.len() == 0 {
        (v, false)
    } else {
        let (w, c1) = apply_all(buttons, axes, device, v, es.drop_last());
        let (x, c2) = apply_spec(buttons, axes, device, w, es.last());
        (x, c1 || c2)
    }
}

/// Sticks within `-NORM_ONE ..= NORM_ONE`, axes within `0 ..= NORM_ONE`.
pub open spec fn values_in_range(v: Values) -> bool {
    &&& forall|i: int|
        0 <= i < v.1.len() ==> norm_in_range((#[trigger] v.1[i]).0) && norm_in_range(v.1[i].1)
    &&& forall|i: int| 0 <= i < v.2.len() ==> 0 <= #[trigger] v.2[i] <= NORM_ONE
}

/// A USB/HID controller and the mapping from its codes to entities.
#[derive(Debug)]
pub struct UsbGamepad {
    buttons: HashMap<u32, usize>,
    axes: HashMap<u32, AxisTarget>,
    device_id: usize,
}

impl UsbGamepad {
    pub closed spec fn button_codes(&self) -> Map<u32, usize> {
        self.buttons@
    }

    pub closed spec fn axis_codes(&self) -> Map<u32, AxisTarget> {
        self.axes@
    }

    pub closed spec fn device(&self) -> usize {
        self.device_id
    }

    /// Builds the mapping for the device with index `device_id`, whose
    /// layout is `device` when such a device exists.
    pub fn init(device_id: usize, device: Option<&DeviceLayout>, inputs: &Inputs) -> (r: Result<
        UsbGamepad,
        BackendError,
    >)
        ensures
            match device {
                None => r == Err::<UsbGamepad, BackendError>(BackendError::NoSuchDevice(device_id)),
                Some(d) => r matches Ok(u) && u.device() == device_id && u.button_codes()
                    == button_map(inputs.buttons@, d.buttons@, inputs.buttons@.len())
                    && u.axis_codes() == axis_map(*inputs, d.axes@),
            },
    {
        match device {
            None => Err(BackendError::NoSuchDevice(device_id)),
            Some(d) => {
                let mut usb = UsbGamepad { buttons: HashMap::new(), axes: HashMap::new(), device_id };
                usb.load_mappings(inputs, d);
                Ok(usb)
            },
        }
    }

    /// Rebuilds the mapping for a new set of entities; without a device
    /// the mapping stays as it was.
    pub fn reload(&mut self, inputs: &Inputs, device: Option<&DeviceLayout>)
        ensures
            final(self).device() == old(self).device(),
            match device {
                None => final(self).button_codes() == old(self).button_codes()
                    && final(self).axis_codes() == old(self).axis_codes(),
                Some(d) => final(self).button_codes() == button_map(
                    inputs.buttons@,
                    d.buttons@,
                    inputs.buttons@.len(),
                ) && final(self).axis_codes() == axis_map(*inputs, d.axes@),
            },
    {
        if let Some(d) = device {
            self.load_mappings(inputs, d);
        }
    }

    fn load_mappings(&mut self, inputs: &Inputs, device: &DeviceLayout)
        ensures
            final(self).device_id == old(self).device_id,
            final(self).buttons@ == button_map(
                inputs.buttons@,
                device.buttons@,
                inputs.buttons@.len(),
            ),
            final(self).axes@ == axis_map(*inputs, device.axes@),
    {
        self.buttons.clear();
        let mut i: usize = 0;
        while i < inputs.buttons.len()
            invariant
                i <= inputs.buttons@.len(),
                self.buttons@ == button_map(inputs.buttons@, device.buttons@, i as nat),
                self.device_id == old(self).device_id,
            decreases inputs.buttons@.len() - i,
        {
            let id = inputs.buttons[i].id as usize;
            if id < device.buttons.len() {
                self.buttons.insert(device.buttons[id], i);
            }
            i += 1;
        }
        self.axes.clear();
        let mut k: usize = 0;
        while k < inputs.axes.len()
            invariant
                k <= inputs.axes@.len(),
                self.axes@ == single_map(inputs.axes@, device.axes@, k as nat),
                self.buttons@ == button_map(
                    inputs.buttons@,
                    device.buttons@,
                    inputs.buttons@.len(),
                ),
                self.device_id == old(self).device_id,
            decreases inputs.axes@.len() - k,
        {
            self.map_axis(device, inputs.axes[k].axis.id, AxisIndex::Single(k));
            k += 1;
        }
        let mut j: usize = 0;
        while j < inputs.sticks.len()
            invariant
                j <= inputs.sticks@.len(),
                self.axes@ == stick_map(
                    inputs.sticks@,
                    device.axes@,
                    single_map(inputs.axes@, device.axes@, inputs.axes@.len()),
                    j as nat,
                ),
                self.buttons@ == button_map(
                    inputs.buttons@,
                    device.buttons@,
                    inputs.buttons@.len(),
                ),
                self.device_id == old(self).device_id,
            decreases inputs.sticks@.len() - j,
        {
            let s = inputs.sticks[j];
            self.map_axis(device, s.x.id, AxisIndex::Stick(j, Xy::X));
            self.map_axis(device, s.y.id, AxisIndex::Stick(j, Xy::Y));
            j += 1;
        }
    }

    fn map_axis(&mut self, device: &DeviceLayout, id: u8, index: AxisIndex)
        ensures
            final(self).axes@ == map_axis(old(self).axes@, device.axes@, id, index),
            final(self).buttons@ == old(self).buttons@,
            final(self).device_id == old(self).device_id,
    {
        if (id as usize) < device.axes.len() {
            let (code, range) = device.axes[id as usize];
            self.axes.insert(code, AxisTarget { index, range });
        }
    }

    /// Applies one event to the state; returns whether a value changed.
    pub fn apply(&self, state: &mut InputState, event: DeviceEvent) -> (changed: bool)
        requires
            values_in_range(values_of(*old(state))),
        ensures
            (values_of(*final(state)), changed) == apply_spec(
                self.button_codes(),
                self.axis_codes(),
                self.device(),
                values_of(*old(state)),
                event,
            ),
            values_in_range(values_of(*final(state))),
            final(state).buttons@.len() == old(state).buttons@.len(),
            final(state).sticks@.len() == old(state).sticks@.len(),
            final(state).axes@.len() == old(state).axes@.len(),
    {
        if event.device != self.device_id {
            return false;
        }
        match event.kind {
            EventKind::ButtonPressed(c) => self.set_button(state, c, true),
            EventKind::ButtonReleased(c) => self.set_button(state, c, false),
            EventKind::AxisValueChanged(raw, c) => {
                match self.axes.get(&c) {
                    None => false,
                    Some(t) => {
                        let n = normalized(raw, t.range, false);
                        match t.index {
                            AxisIndex::Stick(i, xy) => {
                                if i < state.sticks.len() {
                                    let old = state.sticks[i];
                                    let new = if xy == Xy::X {
                                        (n, old.1)
                                    } else {
                                        (old.0, n)
                                    };
                                    state.sticks.set(i, new);
                                    new.0 != old.0 || new.1 != old.1
                                } else {
                                    false
                                }
                            },
                            AxisIndex::Single(i) => {
                                let p = percent(n);
                                if i < state.axes.len() {
                                    let old = state.axes[i];
                                    state.axes.set(i, p);
                                    old != p
                                } else {
                                    false
                                }
                            },
                        }
                    },
                }
            },
            EventKind::Other => false,
        }
    }

    fn set_button(&self, state: &mut InputState, c: u32, pressed: bool) -> (changed: bool)
        ensures
            (values_of(*final(state)), changed) == set_button(
                self.buttons@,
                values_of(*old(state)),
                c,
                pressed,
            ),
    {
        match self.buttons.get(&c) {
            Some(i) => {
                if *i < state.buttons.len() {
                    let old = state.buttons[*i];
                    state.buttons.set(*i, pressed);
                    old != pressed
                } else {
                    false
                }
            },
            None => false,
        }
    }

    /// Applies the device's queued events in order; returns whether any of
    /// them changed a value.
    pub fn poll(&self, state: &mut InputState, events: &Vec<DeviceEvent>) -> (changed: bool)
        requires
            values_in_range(values_of(*old(state))),
        ensures
            (values_of(*final(state)), changed) == apply_all(
                self.button_codes(),
                self.axis_codes(),
                self.device(),
                values_of(*old(state)),
                events@,
            ),
            values_in_range(values_of(*final(state))),
            final(state).buttons@.len() == old(state).buttons@.len(),
            final(state).sticks@.len() == old(state).sticks@.len(),
            final(state).axes@.len() == old(state).axes@.len(),
    {
        let mut changed = false;
        let mut i: usize = 0;
        while i < events.len()
            invariant
                i <= events@.len(),
                (values_of(*state), changed) == apply_all(
                    self.button_codes(),
                    self.axis_codes(),
                    self.device(),
                    values_of(*old(state)),
                    events@.take(i as int),
                ),
                values_in_range(values_of(*state)),
                state.buttons@.len() == old(state).buttons@.len(),
                state.sticks@.len() == old(state).sticks@.len(),
                state.axes@.len() == old(state).axes@.len(),
            decreases events@.len() - i,
        {
            proof {
                assert(events@.take(i + 1).drop_last() =~= events@.take(i as int));
            }
            let c = self.apply(state, events[i]);
            changed = changed || c;
            i += 1;
        }
        proof {
            assert(events@.take(events@.len() as int) =~= events@);
        }
        changed
    }
}

} // verus!
