//! The flat byte-addressable store: font region, program image, and the
//! bounds-checked read and write operations.

use vstd::prelude::*;
use crate::fonts::{font_table, spec_font};
use crate::state::{Fault, FONT_BYTES, MAX_ROM, MEM_SIZE, ROM_BASE};

verus! {

/// `MEM_SIZE` bytes of zero-initialized memory.
pub struct Memory {
    mem: Vec<u8>,
}

impl View for Memory {
    type V = Seq<u8>;

    closed spec fn view(&self) -> Seq<u8> {
        self.mem@
    }
}

/// The memory contents right after a program image `rom` was loaded: the
/// font table at the bottom, the image at `ROM_BASE`, zeroes elsewhere.
pub open spec fn loaded_mem(rom: Seq<u8>) -> Seq<u8> {
    Seq::new(
        MEM_SIZE as nat,
        |a: int|
            if a < FONT_BYTES {
                spec_font()[a]
            } else if ROM_BASE <= a < ROM_BASE + rom.len() {
                rom[a - ROM_BASE]
            } else {
                0u8
            },
    )
}

impl Memory {
    /// The store always holds exactly `MEM_SIZE` bytes.
    pub open spec fn wf(&self) -> bool {
        self@.len() == MEM_SIZE
    }

    /// A fresh, zeroed store.
    pub fn new() -> (m: Memory)
        ensures
            m.wf(),
            forall|a: int| 0 <= a < MEM_SIZE ==> m@[a] == 0u8,
    {
        let mut mem: Vec<u8> = Vec::new();
        while mem.len() < MEM_SIZE
            invariant
                mem@.len() <= MEM_SIZE,
                forall|a: int| 0 <= a < mem@.len() ==> mem@[a] == 0u8,
            decreases MEM_SIZE - mem@.len(),
        {
            mem.push(0u8);
        }
        Memory { mem }
    }

    /// The byte at address `i`.
    pub fn get_mem(&mut self, i: usize) -> (b: u8)
        requires
            old(self).wf(),
            i < MEM_SIZE,
        ensures
            final(self)@ == old(self)@,
            b == old(self)@[i as int],
    {
        self.mem[i]
    }

    /// Overwrite the byte at address `i`.
    pub fn set_mem(&mut self, i: usize, value: u8)
        requires
            old(self).wf(),
            i < MEM_SIZE,
        ensures
            final(self).wf(),
            final(self)@ == old(self)@.update(i as int, value),
    {
        self.mem.set(i, value);
    }

    /// Zero the store, write the font table into the reserved low region,
    /// and copy `rom` in starting at `ROM_BASE`. An image larger than
    /// `MAX_ROM` bytes is refused and the store is left as it was.
    pub fn load_rom(&mut self, rom: &Vec<u8>) -> (r: Result<(), Fault>)
        requires
            old(self).wf(),
        ensures
            final(self).wf(),
            rom@.len() > MAX_ROM ==> r == Err::<(), Fault>(Fault::RomTooLarge) && final(self)@
                == old(self)@,
            rom@.len() <= MAX_ROM ==> r == Ok::<(), Fault>(()) && final(self)@ =~= loaded_mem(
                rom@,
            ),
    {
        if rom.len() > MAX_ROM {
            return Err(Fault::RomTooLarge);
        }
        let mut a: usize = 0;
        while a < MEM_SIZE
            invariant
                old(self).wf(),
                self.wf(),
                a <= MEM_SIZE,
                forall|b: int| 0 <= b < a ==> self@[b] == 0u8,
                forall|b: int| a <= b < MEM_SIZE ==> self@[b] == old(self)@[b],
            decreases MEM_SIZE - a,
        {
            self.set_mem(a, 0u8);
            a = a + 1;
        }
        let font = font_table();
        let mut k: usize = 0;
        while k < FONT_BYTES
            invariant
                self.wf(),
                k <= FONT_BYTES,
                font@.len() == FONT_BYTES,
                forall|j: int| 0 <= j < FONT_BYTES ==> font@[j] == spec_font()[j],
                forall|b: int| 0 <= b < k ==> self@[b] == spec_font()[b],
                forall|b: int| k <= b < MEM_SIZE ==> self@[b] == 0u8,
            decreases FONT_BYTES - k,
        {
            let fb = font[k];
            self.set_mem(k, fb);
            k = k + 1;
        }
        let mut j: usize = 0;
        while j < rom.len()
            invariant
                self.wf(),
                j <= rom@.len(),
                rom@.len() <= MAX_ROM,
                forall|b: int| 0 <= b < FONT_BYTES ==> self@[b] == spec_font()[b],
                forall|b: int| 0 <= b < j ==> self@[ROM_BASE + b] == rom@[b],
                forall|b: int|
                    FONT_BYTES <= b < MEM_SIZE && !(ROM_BASE <= b < ROM_BASE + j) ==> self@[b]
                        == 0u8,
            decreases rom@.len() - j,
        {
            let byte = rom[j];
            self.set_mem(ROM_BASE + j, byte);
            j = j + 1;
        }
        Ok(())
    }
}

} // verus!
