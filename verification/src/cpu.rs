//! The processor state: registers, program counter, call stack, address
//! register, timers, and the blocked-on-key flag.

use vstd::prelude::*;
use crate::state::{op_nnn, MEM_SIZE, NUM_REGS, ROM_BASE, STACK_LIMIT};

verus! {

/// The processor state, as mathematics.
#[verifier::ext_equal]
pub ghost struct CpuView {
    /// The sixteen registers V0..VF.
    pub regs: Seq<u8>,
    /// The delay timer.
    pub delay: u8,
    /// The sound timer.
    pub sound: u8,
    /// The program counter.
    pub pc: u16,
    /// The call stack, most recent return address last.
    pub stack: Seq<u16>,
    /// The address register I.
    pub i: u16,
    /// Whether execution is blocked waiting for a key press.
    pub waiting: bool,
    /// The register that receives the awaited key index.
    pub wait_reg: u8,
}

/// The processor: sixteen 8-bit registers (VF doubles as the flag output
/// of arithmetic and drawing), the program counter, the bounded call
/// stack, the address register and the two countdown timers.
pub struct Cpu {
    pub(crate) registers: Vec<u8>,
    pub(crate) delay_timer: u8,
    pub(crate) sound_timer: u8,
    pub(crate) pc: u16,
    pub(crate) stack: Vec<u16>,
    pub(crate) index_register: u16,
    pub(crate) waiting: bool,
    pub(crate) wait_reg: u8,
}

impl View for Cpu {
    type V = CpuView;

    closed spec fn view(&self) -> CpuView {
        CpuView {
            regs: self.registers@,
            delay: self.delay_timer,
            sound: self.sound_timer,
            pc: self.pc,
            stack: self.stack@,
            i: self.index_register,
            waiting: self.waiting,
            wait_reg: self.wait_reg,
        }
    }
}

impl Cpu {
    /// Sixteen registers, a bounded stack, and an address register that
    /// stays inside memory.
    pub open spec fn wf(&self) -> bool {
        &&& self@.regs.len() == NUM_REGS
        &&& self@.stack.len() <= STACK_LIMIT
        &&& self@.i < MEM_SIZE
        &&& self@.wait_reg < NUM_REGS
    }

    /// A fresh processor: registers and timers zeroed, empty stack, the
    /// program counter at `ROM_BASE`.
    pub fn new() -> (c: Cpu)
        ensures
            c.wf(),
            forall|r: int| 0 <= r < NUM_REGS ==> c@.regs[r] == 0u8,
            c@.delay == 0,
            c@.sound == 0,
            c@.pc == ROM_BASE,
            c@.stack =~= Seq::<u16>::empty(),
            c@.i == 0,
            !c@.waiting,
            c@.wait_reg == 0,
    {
        let mut registers: Vec<u8> = Vec::new();
        while registers.len() < NUM_REGS
            invariant
                registers@.len() <= NUM_REGS,
                forall|r: int| 0 <= r < registers@.len() ==> registers@[r] == 0u8,
            decreases NUM_REGS - registers@.len(),
        {
            registers.push(0u8);
        }
        Cpu {
            registers,
            delay_timer: 0,
            sound_timer: 0,
            pc: ROM_BASE as u16,
            stack: Vec::new(),
            index_register: 0,
            waiting: false,
            wait_reg: 0,
        }
    }

    /// The address field of an opcode: its low twelve bits.
    pub fn decode_op(&mut self, opcode: u16) -> (r: u16)
        ensures
            final(self)@ == old(self)@,
            r == op_nnn(opcode),
    {
        opcode & 0x0FFF
    }

    /// The value of register `x`.
    pub fn get_register(&self, x: usize) -> (r: u8)
        requires
            self.wf(),
            x < NUM_REGS,
        ensures
            r == self@.regs[x as int],
    {
        self.registers[x]
    }

    /// The program counter.
    pub fn get_pc(&self) -> (r: u16)
        ensures
            r == self@.pc,
    {
        self.pc
    }

    /// The address register I.
    pub fn get_i(&self) -> (r: u16)
        ensures
            r == self@.i,
    {
        self.index_register
    }

    /// The delay timer.
    pub fn get_delay(&self) -> (r: u8)
        ensures
            r == self@.delay,
    {
        self.delay_timer
    }

    /// The sound timer; a tone plays while it is above zero.
    pub fn get_sound(&self) -> (r: u8)
        ensures
            r == self@.sound,
    {
        self.sound_timer
    }

    /// Whether execution is blocked waiting for a key press.
    pub fn is_waiting(&self) -> (r: bool)
        ensures
            r == self@.waiting,
    {
        self.waiting
    }

    /// How many return addresses the call stack holds.
    pub fn stack_depth(&self) -> (r: usize)
        ensures
            r == self@.stack.len(),
    {
        self.stack.len()
    }

    /// The register awaiting a key index while blocked.
    pub fn get_wait_reg(&self) -> (r: u8)
        ensures
            r == self@.wait_reg,
    {
        self.wait_reg
    }

    /// Write register `x`.
    pub(crate) fn set_register(&mut self, x: usize, v: u8)
        requires
            old(self).wf(),
            x < NUM_REGS,
        ensures
            final(self).wf(),
            final(self)@ == (CpuView { regs: old(self)@.regs.update(x as int, v), ..old(self)@ }),
    {
        self.registers.set(x, v);
    }

    /// Set the program counter.
    pub(crate) fn set_pc(&mut self, pc: u16)
        ensures
            final(self)@ == (CpuView { pc, ..old(self)@ }),
    {
        self.pc = pc;
    }

    /// Set the address register.
    pub(crate) fn set_i(&mut self, i: u16)
        requires
            i < MEM_SIZE,
        ensures
            final(self)@ == (CpuView { i, ..old(self)@ }),
    {
        self.index_register = i;
    }

    /// Set the delay timer.
    pub(crate) fn set_delay(&mut self, v: u8)
        ensures
            final(self)@ == (CpuView { delay: v, ..old(self)@ }),
    {
        self.delay_timer = v;
    }

    /// Set the sound timer.
    pub(crate) fn set_sound(&mut self, v: u8)
        ensures
            final(self)@ == (CpuView { sound: v, ..old(self)@ }),
    {
        self.sound_timer = v;
    }

    /// Block execution until a key is pressed; register `x` will receive
    /// the key index.
    pub(crate) fn begin_wait(&mut self, x: u8)
        requires
            x < NUM_REGS,
        ensures
            final(self)@ == (CpuView { waiting: true, wait_reg: x, ..old(self)@ }),
    {
        self.waiting = true;
        self.wait_reg = x;
    }

    /// Resume normal fetching.
    pub(crate) fn end_wait(&mut self)
        ensures
            final(self)@ == (CpuView { waiting: false, ..old(self)@ }),
    {
        self.waiting = false;
    }

    /// Push a return address onto the call stack.
    pub(crate) fn push_return(&mut self, addr: u16)
        requires
            old(self)@.stack.len() < STACK_LIMIT,
        ensures
            final(self)@ == (CpuView { stack: old(self)@.stack.push(addr), ..old(self)@ }),
    {
        self.stack.push(addr);
    }

    /// Pop the most recent return address.
    pub(crate) fn pop_return(&mut self) -> (r: u16)
        requires
            old(self)@.stack.len() > 0,
        ensures
            r == old(self)@.stack.last(),
            final(self)@ == (CpuView { stack: old(self)@.stack.drop_last(), ..old(self)@ }),
    {
        match self.stack.pop() {
            Some(v) => v,
            None => vstd::pervasive::unreached(),
        }
    }

    /// One timer tick: each countdown timer decrements and saturates at
    /// zero; nothing else moves.
    pub(crate) fn tick_timers(&mut self)
        ensures
            final(self)@ == (CpuView {
                delay: if old(self)@.delay > 0 { ((old(self)@.delay - 1) as u8) } else { 0u8 },
                sound: if old(self)@.sound > 0 { ((old(self)@.sound - 1) as u8) } else { 0u8 },
                ..old(self)@
            }),
    {
        if self.delay_timer > 0 {
            self.delay_timer = self.delay_timer - 1;
        }
        if self.sound_timer > 0 {
            self.sound_timer = self.sound_timer - 1;
        }
    }
}

} // verus!
