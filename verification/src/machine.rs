//! The interpreter: the machine assembled from its parts, the
//! fetch-decode-execute cycle, the blocked-on-key poll, and the timer tick.

use vstd::prelude::*;
use crate::cpu::{Cpu, CpuView};
use crate::gfx::Gfx;
use crate::keypad::Keypad;
use crate::memory::{loaded_mem, Memory};
use crate::state::{
    execute_state, fetch16, first_key, first_key_from, is_initial, lemma_op_fields, op_n, op_x,
    step_state, tick_state, wait_state, Fault, MachineState, StepOutcome, MAX_ROM, MEM_SIZE,
    NUM_KEYS, NUM_PIXELS, STACK_LIMIT,
};

verus! {

/// Relies on rand::random::<u8>: one byte from the thread-local generator.
/// Nothing is promised of the value.
#[verifier::external_body]
fn random_byte() -> u8 {
    rand::random::<u8>()
}

/// The whole machine: processor, memory, framebuffer and keypad, owned
/// together and mutated only by the operations below.
pub struct Chip8 {
    /// Registers, program counter, stack, address register and timers.
    pub cpu: Cpu,
    /// The 4 KB byte store.
    pub mem: Memory,
    /// The 64 x 32 framebuffer.
    pub gfx: Gfx,
    /// The sixteen key states.
    pub keypad: Keypad,
}

impl View for Chip8 {
    type V = MachineState;

    open spec fn view(&self) -> MachineState {
        MachineState {
            mem: self.mem@,
            px: self.gfx@.px,
            dirty: self.gfx@.dirty,
            keys: self.keypad@,
            regs: self.cpu@.regs,
            i: self.cpu@.i,
            pc: self.cpu@.pc,
            stack: self.cpu@.stack,
            delay: self.cpu@.delay,
            sound: self.cpu@.sound,
            waiting: self.cpu@.waiting,
            wait_reg: self.cpu@.wait_reg,
        }
    }
}

/// The machine after a program image is loaded: memory rebuilt around the
/// image, the screen cleared with a redraw owed, everything else untouched.
pub open spec fn load_state(s: MachineState, rom: Seq<u8>) -> MachineState {
    MachineState {
        mem: loaded_mem(rom),
        px: Seq::new(s.px.len(), |p: int| false),
        dirty: true,
        ..s
    }
}

impl Chip8 {
    /// Every component keeps its fixed shape.
    pub open spec fn wf(&self) -> bool {
        &&& self.cpu.wf()
        &&& self.mem.wf()
        &&& self.gfx.wf()
        &&& self.keypad.wf()
    }

    /// A fresh machine: everything zeroed, the program counter at the
    /// start of the program region.
    pub fn new() -> (c: Chip8)
        ensures
            c.wf(),
            is_initial(c@),
    {
        let c = Chip8 { cpu: Cpu::new(), mem: Memory::new(), gfx: Gfx::new(), keypad: Keypad::new() };
        proof {
            assert(c@.mem =~= Seq::new(MEM_SIZE as nat, |a: int| 0u8));
            assert(c@.px =~= Seq::new(NUM_PIXELS as nat, |p: int| false));
            assert(c@.keys =~= Seq::new(NUM_KEYS as nat, |k: int| false));
            assert(c@.regs =~= Seq::new(16, |r: int| 0u8));
        }
        c
    }

    /// Load a program image: zero memory, write the font table, copy the
    /// image in at the program base, and clear the screen. An image that
    /// does not fit is refused and nothing changes.
    pub fn load_rom(&mut self, rom: &Vec<u8>) -> (r: Result<(), Fault>)
        requires
            old(self).wf(),
        ensures
            final(self).wf(),
            rom@.len() > MAX_ROM ==> r == Err::<(), Fault>(Fault::RomTooLarge) && final(self)@
                == old(self)@,
            rom@.len() <= MAX_ROM ==> r == Ok::<(), Fault>(()) && final(self)@ == load_state(
                old(self)@,
                rom@,
            ),
    {
        match self.mem.load_rom(rom) {
            Err(f) => Err(f),
            Ok(()) => {
                self.gfx.clear();
                proof {
                    assert(self@.px =~= Seq::new(old(self)@.px.len(), |p: int| false));
                }
                Ok(())
            },
        }
    }

    /// Fetch the big-endian instruction word at the program counter.
    pub fn fetch_op(&mut self) -> (op: u16)
        requires
            old(self).wf(),
            old(self)@.pc + 2 <= MEM_SIZE,
        ensures
            final(self)@ == old(self)@,
            final(self).wf(),
            op == fetch16(old(self)@.mem, old(self)@.pc),
    {
        let pc = self.cpu.get_pc() as usize;
        let hi = self.mem.get_mem(pc);
        let lo = self.mem.get_mem(pc + 1);
        ((hi as u16) << 8) | (lo as u16)
    }

    /// The system class: clear the screen, or return from a subroutine.
    fn exec_sys(&mut self, opcode: u16, Ghost(rnd): Ghost<u8>) -> (r: Result<StepOutcome, Fault>)
        requires
            old(self).wf(),
            old(self)@.pc + 2 <= MEM_SIZE,
            opcode & 0xF000 == 0x0000,
        ensures
            final(self).wf(),
            ({
                let er = execute_state(old(self)@, opcode, rnd);
                final(self)@ == er.st && r == er.out
            }),
    {
        let pc2 = self.cpu.get_pc() + 2;
        if opcode == 0x00E0 {
            self.gfx.clear();
            self.cpu.set_pc(pc2);
            proof {
                assert(self@.px =~= Seq::new(old(self)@.px.len(), |p: int| false));
            }
            Ok(StepOutcome::Executed)
        } else if opcode == 0x00EE {
            if self.cpu.stack_depth() == 0 {
                return Err(Fault::StackUnderflow);
            }
            let ret = self.cpu.pop_return();
            self.cpu.set_pc(ret);
            Ok(StepOutcome::Executed)
        } else {
            self.cpu.set_pc(pc2);
            Ok(StepOutcome::Unrecognized)
        }
    }

    /// The register-register ALU class: assign, bitwise operations, add
    /// and subtract with their flags, and the two shifts. Operands are
    /// read first; the result lands in Vx and the flag lands in VF last.
    fn exec_alu(&mut self, opcode: u16, Ghost(rnd): Ghost<u8>) -> (r: Result<StepOutcome, Fault>)
        requires
            old(self).wf(),
            old(self)@.pc + 2 <= MEM_SIZE,
            opcode & 0xF000 == 0x8000,
        ensures
            final(self).wf(),
            ({
                let er = execute_state(old(self)@, opcode, rnd);
                final(self)@ == er.st && r == er.out
            }),
    {
        proof {
            lemma_op_fields(opcode);
        }
        let x = ((opcode & 0x0F00) >> 8) as usize;
        let y = ((opcode & 0x00F0) >> 4) as usize;
        let n = opcode & 0x000F;
        let vx = self.cpu.get_register(x);
        let vy = self.cpu.get_register(y);
        let pc2 = self.cpu.get_pc() + 2;
        if n == 0 {
            self.cpu.set_register(x, vy);
        } else if n == 1 {
            self.cpu.set_register(x, vx | vy);
        } else if n == 2 {
            self.cpu.set_register(x, vx & vy);
        } else if n == 3 {
            self.cpu.set_register(x, vx ^ vy);
        } else if n == 4 {
            let sum = vx as u16 + vy as u16;
            let res = (sum % 256) as u8;
            let carry: u8 = if sum > 255 {
                1
            } else {
                0
            };
            self.cpu.set_register(x, res);
            self.cpu.set_register(0xF, carry);
        } else if n == 5 {
            let flag: u8 = if vx > vy {
                1
            } else {
                0
            };
            let res = ((vx as u16 + 256 - vy as u16) % 256) as u8;
            self.cpu.set_register(x, res);
            self.cpu.set_register(0xF, flag);
        } else if n == 6 {
            self.cpu.set_register(x, vx >> 1);
            self.cpu.set_register(0xF, vx & 1);
        } else if n == 7 {
            let flag: u8 = if vy > vx {
                1
            } else {
                0
            };
            let res = ((vy as u16 + 256 - vx as u16) % 256) as u8;
            self.cpu.set_register(x, res);
            self.cpu.set_register(0xF, flag);
        } else if n == 0xE {
            let res = ((vx as u16 * 2) % 256) as u8;
            self.cpu.set_register(x, res);
            self.cpu.set_register(0xF, vx >> 7);
        } else {
            self.cpu.set_pc(pc2);
            return Ok(StepOutcome::Unrecognized);
        }
        self.cpu.set_pc(pc2);
        Ok(StepOutcome::Executed)
    }

    /// The draw class: read the sprite rows from memory at I and XOR them
    /// into the framebuffer; VF receives the collision flag.
    fn exec_draw(&mut self, opcode: u16, Ghost(rnd): Ghost<u8>) -> (r: Result<StepOutcome, Fault>)
        requires
            old(self).wf(),
            old(self)@.pc + 2 <= MEM_SIZE,
            opcode & 0xF000 == 0xD000,
        ensures
            final(self).wf(),
            ({
                let er = execute_state(old(self)@, opcode, rnd);
                final(self)@ == er.st && r == er.out
            }),
    {
        proof {
            lemma_op_fields(opcode);
        }
        let x = ((opcode & 0x0F00) >> 8) as usize;
        let y = ((opcode & 0x00F0) >> 4) as usize;
        let n = (opcode & 0x000F) as usize;
        let i_reg = self.cpu.get_i() as usize;
        if i_reg + n > MEM_SIZE {
            return Err(Fault::MemOutOfRange);
        }
        let ghost s0 = self@;
        let mut rows: Vec<u8> = Vec::new();
        let mut k: usize = 0;
        while k < n
            invariant
                self.wf(),
                self@ == s0,
                k <= n,
                i_reg + n <= MEM_SIZE,
                i_reg == s0.i,
                rows@.len() == k,
                forall|t: int| 0 <= t < k ==> rows@[t] == s0.mem[i_reg + t],
            decreases n - k,
        {
            let b = self.mem.get_mem(i_reg + k);
            rows.push(b);
            k = k + 1;
        }
        proof {
            assert(rows@ =~= s0.mem.subrange(s0.i as int, s0.i + op_n(opcode)));
        }
        let vx = self.cpu.get_register(x);
        let vy = self.cpu.get_register(y);
        let col = self.gfx.draw_sprite(vx, vy, &rows);
        self.cpu.set_register(
            0xF,
            if col {
                1
            } else {
                0
            },
        );
        let pc2 = self.cpu.get_pc() + 2;
        self.cpu.set_pc(pc2);
        Ok(StepOutcome::Executed)
    }

    /// The key-skip class: skip the next instruction according to whether
    /// the key named by Vx is pressed.
    fn exec_key(&mut self, opcode: u16, Ghost(rnd): Ghost<u8>) -> (r: Result<StepOutcome, Fault>)
        requires
            old(self).wf(),
            old(self)@.pc + 2 <= MEM_SIZE,
            opcode & 0xF000 == 0xE000,
        ensures
            final(self).wf(),
            ({
                let er = execute_state(old(self)@, opcode, rnd);
                final(self)@ == er.st && r == er.out
            }),
    {
        proof {
            lemma_op_fields(opcode);
        }
        let x = ((opcode & 0x0F00) >> 8) as usize;
        let kk = (opcode & 0x00FF) as u8;
        let vx = self.cpu.get_register(x);
        let pc = self.cpu.get_pc();
        if kk == 0x9E {
            if vx >= 16 {
                return Err(Fault::KeyOutOfRange);
            }
            let pressed = self.keypad.is_pressed(vx as usize);
            self.cpu.set_pc(
                if pressed {
                    pc + 4
                } else {
                    pc + 2
                },
            );
            Ok(StepOutcome::Executed)
        } else if kk == 0xA1 {
            if vx >= 16 {
                return Err(Fault::KeyOutOfRange);
            }
            let pressed = self.keypad.is_pressed(vx as usize);
            self.cpu.set_pc(
                if !pressed {
                    pc + 4
                } else {
                    pc + 2
                },
            );
            Ok(StepOutcome::Executed)
        } else {
            self.cpu.set_pc(pc + 2);
            Ok(StepOutcome::Unrecognized)
        }
    }

    /// The miscellaneous class: timers, the blocking key wait, address
    /// register arithmetic, font addressing, decimal decomposition, and
    /// the register block transfers.
    fn exec_misc(&mut self, opcode: u16, Ghost(rnd): Ghost<u8>) -> (r: Result<StepOutcome, Fault>)
        requires
            old(self).wf(),
            old(self)@.pc + 2 <= MEM_SIZE,
            opcode & 0xF000 == 0xF000,
        ensures
            final(self).wf(),
            ({
                let er = execute_state(old(self)@, opcode, rnd);
                final(self)@ == er.st && r == er.out
            }),
    {
        proof {
            lemma_op_fields(opcode);
        }
        let x = ((opcode & 0x0F00) >> 8) as usize;
        let kk = (opcode & 0x00FF) as u8;
        let vx = self.cpu.get_register(x);
        let i_reg = self.cpu.get_i() as usize;
        let pc2 = self.cpu.get_pc() + 2;
        if kk == 0x07 {
            let d = self.cpu.get_delay();
            self.cpu.set_register(x, d);
        } else if kk == 0x0A {
            self.cpu.begin_wait(x as u8);
        } else if kk == 0x15 {
            self.cpu.set_delay(vx);
        } else if kk == 0x18 {
            self.cpu.set_sound(vx);
        } else if kk == 0x1E {
            let ni = (self.cpu.get_i() + vx as u16) % 4096;
            self.cpu.set_i(ni);
        } else if kk == 0x29 {
            self.cpu.set_i(vx as u16 * 5);
        } else if kk == 0x33 {
            if i_reg + 3 > MEM_SIZE {
                return Err(Fault::MemOutOfRange);
            }
            self.mem.set_mem(i_reg, vx / 100);
            self.mem.set_mem(i_reg + 1, (vx % 100) / 10);
            self.mem.set_mem(i_reg + 2, vx % 10);
        } else if kk == 0x55 {
            if i_reg + x + 1 > MEM_SIZE {
                return Err(Fault::MemOutOfRange);
            }
            let ghost s0 = self@;
            let mut k: usize = 0;
            while k < x + 1
                invariant
                    self.wf(),
                    x < 16,
                    k <= x + 1,
                    i_reg + x + 1 <= MEM_SIZE,
                    i_reg == s0.i,
                    s0.regs.len() == 16,
                    self@.mem.len() == MEM_SIZE,
                    forall|a: int|
                        0 <= a < MEM_SIZE ==> self@.mem[a] == (if s0.i <= a && a < s0.i + k {
                            s0.regs[a - s0.i]
                        } else {
                            s0.mem[a]
                        }),
                    self@ == (MachineState { mem: self@.mem, ..s0 }),
                decreases x + 1 - k,
            {
                let v = self.cpu.get_register(k);
                self.mem.set_mem(i_reg + k, v);
                k = k + 1;
            }
            proof {
                assert(self@.mem =~= Seq::new(
                    s0.mem.len(),
                    |a: int|
                        if s0.i <= a && a <= s0.i + op_x(opcode) {
                            s0.regs[a - s0.i]
                        } else {
                            s0.mem[a]
                        },
                ));
            }
        } else if kk == 0x65 {
            if i_reg + x + 1 > MEM_SIZE {
                return Err(Fault::MemOutOfRange);
            }
            let ghost s0 = self@;
            let mut k: usize = 0;
            while k < x + 1
                invariant
                    self.wf(),
                    x < 16,
                    k <= x + 1,
                    i_reg + x + 1 <= MEM_SIZE,
                    i_reg == s0.i,
                    s0.mem.len() == MEM_SIZE,
                    self@.regs.len() == 16,
                    forall|r2: int|
                        0 <= r2 < 16 ==> self@.regs[r2] == (if r2 < k {
                            s0.mem[s0.i + r2]
                        } else {
                            s0.regs[r2]
                        }),
                    self@ == (MachineState { regs: self@.regs, ..s0 }),
                decreases x + 1 - k,
            {
                let b = self.mem.get_mem(i_reg + k);
                self.cpu.set_register(k, b);
                k = k + 1;
            }
            proof {
                assert(self@.regs =~= Seq::new(
                    s0.regs.len(),
                    |r2: int|
                        if r2 <= op_x(opcode) {
                            s0.mem[s0.i + r2]
                        } else {
                            s0.regs[r2]
                        },
                ));
            }
        } else {
            self.cpu.set_pc(pc2);
            return Ok(StepOutcome::Unrecognized);
        }
        self.cpu.set_pc(pc2);
        Ok(StepOutcome::Executed)
    }

    /// Execute one already-fetched opcode, with the random byte for the
    /// random-mask instruction supplied by the caller. The contract is the
    /// instruction table itself: the machine afterwards is exactly
    /// `execute_state` of the machine before.
    pub fn execute_op_with(&mut self, opcode: u16, rnd: u8) -> (r: Result<StepOutcome, Fault>)
        requires
            old(self).wf(),
            old(self)@.pc + 2 <= MEM_SIZE,
        ensures
            final(self).wf(),
            ({
                let er = execute_state(old(self)@, opcode, rnd);
                final(self)@ == er.st && r == er.out
            }),
    {
        proof {
            lemma_op_fields(opcode);
        }
        let c = opcode & 0xF000;
        let x = ((opcode & 0x0F00) >> 8) as usize;
        let kk = (opcode & 0x00FF) as u8;
        let nnn = opcode & 0x0FFF;
        let n = opcode & 0x000F;
        let pc2 = self.cpu.get_pc() + 2;
        if c == 0x0000 {
            self.exec_sys(opcode, Ghost(rnd))
        } else if c == 0x1000 {
            self.cpu.set_pc(nnn);
            Ok(StepOutcome::Executed)
        } else if c == 0x2000 {
            if self.cpu.stack_depth() >= STACK_LIMIT {
                return Err(Fault::StackOverflow);
            }
            self.cpu.push_return(pc2);
            self.cpu.set_pc(nnn);
            Ok(StepOutcome::Executed)
        } else if c == 0x3000 {
            let vx = self.cpu.get_register(x);
            self.cpu.set_pc(
                if vx == kk {
                    pc2 + 2
                } else {
                    pc2
                },
            );
            Ok(StepOutcome::Executed)
        } else if c == 0x4000 {
            let vx = self.cpu.get_register(x);
            self.cpu.set_pc(
                if vx != kk {
                    pc2 + 2
                } else {
                    pc2
                },
            );
            Ok(StepOutcome::Executed)
        } else if c == 0x5000 {
            if n == 0 {
                let vx = self.cpu.get_register(x);
                let y = ((opcode & 0x00F0) >> 4) as usize;
                let vy = self.cpu.get_register(y);
                self.cpu.set_pc(
                    if vx == vy {
                        pc2 + 2
                    } else {
                        pc2
                    },
                );
                Ok(StepOutcome::Executed)
            } else {
                self.cpu.set_pc(pc2);
                Ok(StepOutcome::Unrecognized)
            }
        } else if c == 0x6000 {
            self.cpu.set_register(x, kk);
            self.cpu.set_pc(pc2);
            Ok(StepOutcome::Executed)
        } else if c == 0x7000 {
            let vx = self.cpu.get_register(x);
            let res = ((vx as u16 + kk as u16) % 256) as u8;
            self.cpu.set_register(x, res);
            self.cpu.set_pc(pc2);
            Ok(StepOutcome::Executed)
        } else if c == 0x8000 {
            self.exec_alu(opcode, Ghost(rnd))
        } else if c == 0x9000 {
            if n == 0 {
                let vx = self.cpu.get_register(x);
                let y = ((opcode & 0x00F0) >> 4) as usize;
                let vy = self.cpu.get_register(y);
                self.cpu.set_pc(
                    if vx != vy {
                        pc2 + 2
                    } else {
                        pc2
                    },
                );
                Ok(StepOutcome::Executed)
            } else {
                self.cpu.set_pc(pc2);
                Ok(StepOutcome::Unrecognized)
            }
        } else if c == 0xA000 {
            self.cpu.set_i(nnn);
            self.cpu.set_pc(pc2);
            Ok(StepOutcome::Executed)
        } else if c == 0xB000 {
            let v0 = self.cpu.get_register(0);
            self.cpu.set_pc(nnn + v0 as u16);
            Ok(StepOutcome::Executed)
        } else if c == 0xC000 {
            self.cpu.set_register(x, kk & rnd);
            self.cpu.set_pc(pc2);
            Ok(StepOutcome::Executed)
        } else if c == 0xD000 {
            self.exec_draw(opcode, Ghost(rnd))
        } else if c == 0xE000 {
            self.exec_key(opcode, Ghost(rnd))
        } else if c == 0xF000 {
            self.exec_misc(opcode, Ghost(rnd))
        } else {
            self.cpu.set_pc(pc2);
            Ok(StepOutcome::Unrecognized)
        }
    }

    /// Execute one already-fetched opcode; the byte for the random-mask
    /// instruction is drawn from the host's generator, so the contract
    /// holds for some byte.
    pub fn execute_op(&mut self, opcode: u16) -> (r: Result<StepOutcome, Fault>)
        requires
            old(self).wf(),
            old(self)@.pc + 2 <= MEM_SIZE,
        ensures
            final(self).wf(),
            exists|b: u8|
                final(self)@ == (#[trigger] execute_state(old(self)@, opcode, b)).st && r
                    == execute_state(old(self)@, opcode, b).out,
    {
        let b = random_byte();
        let res = self.execute_op_with(opcode, b);
        proof {
            let er = execute_state(old(self)@, opcode, b);
            assert(self@ == er.st && res == er.out);
        }
        res
    }

    /// One poll of the keypad while blocked: the first pressed key
    /// (scanning from index 0) lands in the designated register and the
    /// machine resumes; with no key pressed, nothing changes.
    fn wait_keypress(&mut self)
        requires
            old(self).wf(),
            old(self)@.waiting,
        ensures
            final(self).wf(),
            final(self)@ == wait_state(old(self)@),
    {
        let x = self.cpu.get_wait_reg() as usize;
        let mut k: usize = 0;
        while k < NUM_KEYS
            invariant
                self.wf(),
                self@ == old(self)@,
                x == old(self)@.wait_reg,
                k <= NUM_KEYS,
                first_key(self@.keys) == first_key_from(self@.keys, k as int),
            decreases NUM_KEYS - k,
        {
            if self.keypad.is_pressed(k) {
                self.cpu.set_register(x, k as u8);
                self.cpu.end_wait();
                return;
            }
            k = k + 1;
        }
    }

    /// One step of the machine. While blocked on a key it polls the
    /// keypad; otherwise it fetches the instruction at the program counter
    /// (a fault if that would read past the end of memory) and executes
    /// it. The machine afterwards is exactly `step_state` of the machine
    /// before, for some drawn random byte.
    pub fn step(&mut self) -> (r: Result<StepOutcome, Fault>)
        requires
            old(self).wf(),
        ensures
            final(self).wf(),
            exists|b: u8|
                final(self)@ == (#[trigger] step_state(old(self)@, b)).st && r == step_state(
                    old(self)@,
                    b,
                ).out,
    {
        if self.cpu.is_waiting() {
            self.wait_keypress();
            proof {
                let sr = step_state(old(self)@, 0u8);
                assert(self@ == sr.st && Ok::<StepOutcome, Fault>(StepOutcome::Executed)
                    == sr.out);
            }
            return Ok(StepOutcome::Executed);
        }
        let pc = self.cpu.get_pc();
        if pc as usize + 2 > MEM_SIZE {
            proof {
                let sr = step_state(old(self)@, 0u8);
                assert(self@ == sr.st && Err::<StepOutcome, Fault>(Fault::MemOutOfRange)
                    == sr.out);
            }
            return Err(Fault::MemOutOfRange);
        }
        let opcode = self.fetch_op();
        let res = self.execute_op(opcode);
        proof {
            let b = choose|b: u8|
                self@ == (#[trigger] execute_state(old(self)@, opcode, b)).st && res
                    == execute_state(old(self)@, opcode, b).out;
            let sr = step_state(old(self)@, b);
            assert(self@ == sr.st && res == sr.out);
        }
        res
    }

    /// One timer tick, at the host's fixed cadence, independent of how
    /// many instructions have run: each timer counts down and saturates
    /// at zero; nothing else moves.
    pub fn tick(&mut self)
        requires
            old(self).wf(),
        ensures
            final(self).wf(),
            final(self)@ == tick_state(old(self)@),
    {
        self.cpu.tick_timers();
    }
}

} // verus!
