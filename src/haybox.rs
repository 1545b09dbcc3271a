//! The serial backend: a microcontroller sends one line per state, a `'1'`
//! at position `i` meaning that input `i` is held. A reader decodes each
//! line and stores it in a shared cell where only the latest frame is kept;
//! polling applies the latest frame to the tracked buttons.

use std::sync::atomic::{AtomicU64, Ordering};
use std::sync::Arc;

use vstd::prelude::*;

use crate::gamepad::{InputState, Inputs};

verus! {

/// Whether input `n` is held in `frame`.
pub open spec fn bit_set(frame: u64, n: int) -> bool {
    0 <= n < 64 && ((frame >> (n as u64)) & 1u64) == 1u64
}

/// No newline in `line` before position `j`.
pub open spec fn before_newline(line: Seq<u8>, j: int) -> bool {
    forall|k: int| 0 <= k < j ==> line[k] != 10u8
}

proof fn lemma_set_bit(a: u64, i: u64, j: u64)
    requires
        i < 64,
        j < 64,
    ensures
        (((a | (1u64 << i)) >> j) & 1u64 == 1u64) <==> (((a >> j) & 1u64 == 1u64) || i == j),
{
    assert((((a | (1u64 << i)) >> j) & 1u64 == 1u64) <==> (((a >> j) & 1u64 == 1u64) || i == j))
        by (bit_vector)
        requires
            i < 64,
            j < 64,
    ;
}

/// Decodes one line: bit `i` is set exactly when position `i` (below 64)
/// holds `'1'` and comes before the first newline.
pub fn decode_line(line: &[u8]) -> (r: u64)
    ensures
        forall|j: int|
            0 <= j < 64 ==> (#[trigger] bit_set(r, j) <==> (j < line@.len() && line@[j] == 49u8
                && before_newline(line@, j))),
{
    let mut acc: u64 = 0;
    let mut i: usize = 0;
    assert forall|j: int| 0 <= j < 64 implies !#[trigger] bit_set(0u64, j) by {
        let jj = j as u64;
        assert(((0u64 >> jj) & 1u64) == 0u64) by (bit_vector);
    }
    while i < line.len() && i < 64
        invariant
            i <= line@.len(),
            i <= 64,
            before_newline(line@, i as int),
            forall|j: int|
                0 <= j < 64 ==> (#[trigger] bit_set(acc, j) <==> (j < i && line@[j] == 49u8)),
        decreases line@.len() - i,
    {
        let b = line[i];
        if b == 10u8 {
            assert forall|j: int| 0 <= j < 64 implies (#[trigger] bit_set(acc, j) <==> (j
                < line@.len() && line@[j] == 49u8 && before_newline(line@, j))) by {
                if j > i {
                    assert(line@[i as int] == 10u8);
                }
            }
            return acc;
        }
        if b == 49u8 {
            let next = acc | (1u64 << (i as u64));
            assert forall|j: int| 0 <= j < 64 implies (#[trigger] bit_set(next, j) <==> (j < i + 1
                && line@[j] == 49u8)) by {
                lemma_set_bit(acc, i as u64, j as u64);
                assert(bit_set(acc, j) <==> (j < i && line@[j] == 49u8));
                assert(line@[i as int] == 49u8);
            }
            acc = next;
        }
        i += 1;
    }
    assert forall|j: int| 0 <= j < 64 implies (#[trigger] bit_set(acc, j) <==> (j < line@.len()
        && line@[j] == 49u8 && before_newline(line@, j))) by {
        if j < i {
            assert(before_newline(line@, j)) by {
                assert forall|k: int| 0 <= k < j implies line@[k] != 10u8 by {
                    assert(k < i);
                }
            }
        }
    }
    acc
}

/// The buttons after applying `frame`: each tracked button takes its bit;
/// buttons past the tracked ones keep their value.
pub open spec fn frame_buttons(ids: Seq<u8>, old: Seq<bool>, frame: u64) -> Seq<bool> {
    Seq::new(
        old.len(),
        |k: int|
            if k < ids.len() {
                bit_set(frame, ids[k] as int)
            } else {
                old[k]
            },
    )
}

/// Whether applying `frame` changes a tracked button.
pub open spec fn frame_changes(ids: Seq<u8>, old: Seq<bool>, frame: u64) -> bool {
    exists|k: int| 0 <= k < ids.len() && k < old.len() && old[k] != bit_set(frame, ids[k] as int)
}

/// A serial controller: the button ids it tracks, in button order, and the
/// cell the reader stores the latest decoded frame in.
#[derive(Debug)]
pub struct Haybox {
    ids: Vec<u8>,
    latest: Arc<AtomicU64>,
}

/// The ids of the buttons, in order.
pub open spec fn button_ids(inputs: Inputs) -> Seq<u8> {
    inputs.buttons@.map_values(|b: crate::gamepad::Button| b.id)
}

fn ids_of(inputs: &Inputs) -> (v: Vec<u8>)
    ensures
        v@ == button_ids(*inputs),
{
    let mut v: Vec<u8> = Vec::new();
    let mut i: usize = 0;
    while i < inputs.buttons.len()
        invariant
            i <= inputs.buttons@.len(),
            v@ == button_ids(*inputs).take(i as int),
        decreases inputs.buttons@.len() - i,
    {
        v.push(inputs.buttons[i].id);
        proof {
            assert(button_ids(*inputs).take(i + 1) =~= button_ids(*inputs).take(i as int).push(
                inputs.buttons@[i as int].id,
            ));
        }
        i += 1;
    }
    assert(button_ids(*inputs).take(inputs.buttons@.len() as int) =~= button_ids(*inputs));
    v
}

impl Haybox {
    pub closed spec fn ids(&self) -> Seq<u8> {
        self.ids@
    }

    /// Tracks the buttons of `inputs`, reading frames from `latest`.
    pub fn init(latest: Arc<AtomicU64>, inputs: &Inputs) -> (h: Haybox)
        ensures
            h.ids() == button_ids(*inputs),
    {
        Haybox { ids: ids_of(inputs), latest }
    }

    /// Tracks the buttons of a new set of entities.
    pub fn reload(&mut self, inputs: &Inputs)
        ensures
            final(self).ids() == button_ids(*inputs),
    {
        self.ids = ids_of(inputs);
    }

    /// Applies a decoded frame to the buttons; returns whether one changed.
    pub fn apply_frame(&self, state: &mut InputState, frame: u64) -> (changed: bool)
        ensures
            final(state).buttons@ == frame_buttons(self.ids(), old(state).buttons@, frame),
            final(state).sticks@ == old(state).sticks@,
            final(state).axes@ == old(state).axes@,
            changed == frame_changes(self.ids(), old(state).buttons@, frame),
    {
        let ghost before = state.buttons@;
        let mut changed = false;
        let mut k: usize = 0;
        while k < self.ids.len() && k < state.buttons.len()
            invariant
                k <= self.ids@.len(),
                k <= before.len(),
                state.buttons@.len() == before.len(),
                state.sticks@ == old(state).sticks@,
                state.axes@ == old(state).axes@,
                before == old(state).buttons@,
                forall|q: int|
                    0 <= q < before.len() ==> #[trigger] state.buttons@[q] == if q < k {
                        bit_set(frame, self.ids@[q] as int)
                    } else {
                        before[q]
                    },
                changed == exists|q: int|
                    0 <= q < k && before[q] != bit_set(frame, self.ids@[q] as int),
            decreases self.ids@.len() - k,
        {
            let id = self.ids[k];
            let new = id < 64 && (frame >> (id as u64)) & 1u64 == 1u64;
            assert(new == bit_set(frame, id as int));
            let old = state.buttons[k];
            state.buttons.set(k, new);
            if old != new {
                assert(before[k as int] != bit_set(frame, self.ids@[k as int] as int));
            }
            changed = changed || old != new;
            k += 1;
        }
        proof {
            let fb = frame_buttons(self.ids(), before, frame);
            assert forall|q: int| 0 <= q < before.len() implies state.buttons@[q] == fb[q] by {
                if k <= q && q < self.ids@.len() {
                    assert(k == before.len());
                }
            }
            assert(state.buttons@ =~= fb);
            if frame_changes(self.ids(), before, frame) {
                let q = choose|q: int|
                    0 <= q < self.ids@.len() && q < before.len() && before[q] != bit_set(
                        frame,
                        self.ids@[q] as int,
                    );
                assert(q < k);
            }
        }
        changed
    }

    /// Applies the latest frame the reader stored. Whatever the frame, the
    /// state is what `apply_frame` makes of it.
    pub fn poll(&self, state: &mut InputState) -> (changed: bool)
        ensures
            exists|frame: u64|
                final(state).buttons@ == frame_buttons(self.ids(), old(state).buttons@, frame)
                    && changed == frame_changes(self.ids(), old(state).buttons@, frame),
            final(state).sticks@ == old(state).sticks@,
            final(state).axes@ == old(state).axes@,
    {
        let frame = self.latest.load(Ordering::Relaxed);
        self.apply_frame(state, frame)
    }
}

} // verus!
