//! The sixteen-key keypad: press and release events arrive from the host,
//! and the interpreter queries key states.

use vstd::prelude::*;
use crate::state::NUM_KEYS;

verus! {

/// The sixteen boolean key states, indexed 0x0 to 0xF.
pub struct Keypad {
    keys: Vec<bool>,
}

impl View for Keypad {
    type V = Seq<bool>;

    closed spec fn view(&self) -> Seq<bool> {
        self.keys@
    }
}

impl Keypad {
    /// There are always exactly `NUM_KEYS` key states.
    pub open spec fn wf(&self) -> bool {
        self@.len() == NUM_KEYS
    }

    /// A fresh keypad with every key released.
    pub fn new() -> (k: Keypad)
        ensures
            k.wf(),
            forall|i: int| 0 <= i < NUM_KEYS ==> !k@[i],
    {
        let mut keys: Vec<bool> = Vec::new();
        while keys.len() < NUM_KEYS
            invariant
                keys@.len() <= NUM_KEYS,
                forall|i: int| 0 <= i < keys@.len() ==> !keys@[i],
            decreases NUM_KEYS - keys@.len(),
        {
            keys.push(false);
        }
        Keypad { keys }
    }

    /// Whether key `x` is currently pressed.
    pub fn is_pressed(&mut self, x: usize) -> (r: bool)
        requires
            old(self).wf(),
            x < NUM_KEYS,
        ensures
            final(self)@ == old(self)@,
            r == old(self)@[x as int],
    {
        self.keys[x]
    }

    /// Record that key `index` was pressed or released.
    pub fn set(&mut self, index: usize, pressed: bool)
        requires
            old(self).wf(),
            index < NUM_KEYS,
        ensures
            final(self).wf(),
            final(self)@ == old(self)@.update(index as int, pressed),
    {
        self.keys.set(index, pressed);
    }
}

} // verus!
