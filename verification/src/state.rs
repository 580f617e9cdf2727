//! The mathematical model of the machine: a ghost record of every piece of
//! interpreter state, and spec functions giving the meaning of each opcode.

use vstd::prelude::*;

verus! {

/// Number of addressable bytes of memory.
pub const MEM_SIZE: usize = 4096;
/// Address at which a loaded program image begins.
pub const ROM_BASE: usize = 512;
/// Largest program image that fits between `ROM_BASE` and the end of memory.
pub const MAX_ROM: usize = 3584;
/// Width of the framebuffer in pixels.
pub const SCREEN_WIDTH: usize = 64;
/// Height of the framebuffer in pixels.
pub const SCREEN_HEIGHT: usize = 32;
/// Total pixel count of the framebuffer.
pub const NUM_PIXELS: usize = 2048;
/// Number of keypad keys.
pub const NUM_KEYS: usize = 16;
/// Number of general-purpose registers.
pub const NUM_REGS: usize = 16;
/// Deepest allowed call stack (hardware convention).
pub const STACK_LIMIT: usize = 16;
/// Size of the built-in font table: 16 sprites of 5 bytes each.
pub const FONT_BYTES: usize = 80;

/// A fatal condition: it ends the run instead of silently corrupting state.
#[derive(Clone, Copy, PartialEq, Eq, Structural, Debug)]
pub enum Fault {
    /// A program image larger than `MAX_ROM` bytes was offered.
    RomTooLarge,
    /// A subroutine return was executed with an empty call stack.
    StackUnderflow,
    /// A subroutine call was executed with the call stack already full.
    StackOverflow,
    /// An instruction fetch or a memory transfer reached past the last byte.
    MemOutOfRange,
    /// A key-skip instruction named a key index above fifteen.
    KeyOutOfRange,
}

/// What a successful step did.
#[derive(Clone, Copy, PartialEq, Eq, Structural, Debug)]
pub enum StepOutcome {
    /// A defined instruction was executed (or a key wait was polled).
    Executed,
    /// The fetched bit pattern matches no defined instruction; it was
    /// skipped as a no-op.
    Unrecognized,
}

/// The whole machine, as mathematics: memory, framebuffer, keypad and
/// processor state in one record.
#[verifier::ext_equal]
pub ghost struct MachineState {
    /// The `MEM_SIZE` bytes of memory.
    pub mem: Seq<u8>,
    /// The framebuffer, row-major: pixel (x, y) sits at index `y * 64 + x`.
    pub px: Seq<bool>,
    /// Whether a redraw is owed to the presentation layer.
    pub dirty: bool,
    /// The sixteen key states.
    pub keys: Seq<bool>,
    /// The sixteen general-purpose registers V0..VF.
    pub regs: Seq<u8>,
    /// The address register I.
    pub i: u16,
    /// The program counter.
    pub pc: u16,
    /// The call stack of return addresses, most recent last.
    pub stack: Seq<u16>,
    /// The delay timer.
    pub delay: u8,
    /// The sound timer.
    pub sound: u8,
    /// Whether the machine is blocked waiting for a key press.
    pub waiting: bool,
    /// The register that receives the key index once one is pressed.
    pub wait_reg: u8,
}

/// Structural well-formedness: every collection has its fixed size and the
/// address register stays inside memory.
pub open spec fn wf_state(s: MachineState) -> bool {
    &&& s.mem.len() == MEM_SIZE
    &&& s.px.len() == NUM_PIXELS
    &&& s.keys.len() == NUM_KEYS
    &&& s.regs.len() == NUM_REGS
    &&& s.stack.len() <= STACK_LIMIT
    &&& s.i < MEM_SIZE
    &&& s.wait_reg < NUM_REGS
}

/// The state of a machine that was just created: everything zeroed, the
/// program counter at `ROM_BASE`.
pub open spec fn is_initial(s: MachineState) -> bool {
    &&& s.mem =~= Seq::new(MEM_SIZE as nat, |a: int| 0u8)
    &&& s.px =~= Seq::new(NUM_PIXELS as nat, |p: int| false)
    &&& !s.dirty
    &&& s.keys =~= Seq::new(NUM_KEYS as nat, |k: int| false)
    &&& s.regs =~= Seq::new(NUM_REGS as nat, |r: int| 0u8)
    &&& s.i == 0
    &&& s.pc == ROM_BASE
    &&& s.stack =~= Seq::<u16>::empty()
    &&& s.delay == 0
    &&& s.sound == 0
    &&& !s.waiting
    &&& s.wait_reg == 0
}

// ---------------------------------------------------------------------------
// Opcode fields

/// The low twelve bits: an address literal.
pub open spec fn op_nnn(op: u16) -> u16 {
    op & 0x0FFF
}

/// The low byte: an immediate operand.
pub open spec fn op_kk(op: u16) -> u8 {
    (op & 0x00FF) as u8
}

/// The low nibble: a row count or an ALU selector.
pub open spec fn op_n(op: u16) -> u16 {
    op & 0x000F
}

/// The second nibble from the top: the first register index.
pub open spec fn op_x(op: u16) -> int {
    ((op & 0x0F00) >> 8) as int
}

/// The third nibble from the top: the second register index.
pub open spec fn op_y(op: u16) -> int {
    ((op & 0x00F0) >> 4) as int
}

/// The decoded fields of an opcode stay inside their fixed widths.
pub proof fn lemma_op_fields(op: u16)
    ensures
        op_nnn(op) < 4096,
        0 <= op_x(op) < 16,
        0 <= op_y(op) < 16,
        op_n(op) < 16,
{
    assert((op & 0x0FFF) < 4096 && ((op & 0x0F00) >> 8) < 16 && ((op & 0x00F0) >> 4) < 16
        && (op & 0x000F) < 16) by (bit_vector);
}

// ---------------------------------------------------------------------------
// Eight-bit truncating arithmetic

/// Addition modulo 256.
pub open spec fn wrap_add8(a: u8, b: u8) -> u8 {
    ((a + b) % 256) as u8
}

/// Subtraction modulo 256.
pub open spec fn wrap_sub8(a: u8, b: u8) -> u8 {
    ((a + 256 - b) % 256) as u8
}

/// A left shift by one, truncated to eight bits.
pub open spec fn shl8(a: u8) -> u8 {
    ((a * 2) % 256) as u8
}

/// The big-endian instruction word at address `pc`.
pub open spec fn fetch16(mem: Seq<u8>, pc: u16) -> u16 {
    (((mem[pc as int] as u16) << 8) | (mem[pc as int + 1] as u16))
}

// ---------------------------------------------------------------------------
// Sprite drawing
//
// A sprite is a sequence of rows; bit `j` (most significant first) of row
// `i` lands on the pixel at `((x0 + j) mod 64, (y0 + i) mod 32)`. A set bit
// toggles its pixel; the collision flag reports whether any previously set
// pixel was toggled off. Because a sprite has at most 15 rows, the targets
// of distinct set bits are distinct pixels, so the drawn state below is a
// pointwise description of the row-by-row XOR.

/// The column hit by bit `j` of a sprite drawn at column `x0`.
pub open spec fn wrap_col(x0: u8, j: int) -> int {
    (x0 + j) % 64
}

/// The row hit by row `i` of a sprite drawn at row `y0`.
pub open spec fn wrap_row(y0: u8, i: int) -> int {
    (y0 + i) % 32
}

/// The framebuffer index of pixel (x, y).
pub open spec fn pixel_index(x: int, y: int) -> int {
    y * 64 + x
}

/// Whether bit `j` (most significant first) of a sprite row is set.
pub open spec fn sprite_bit(row: u8, j: int) -> bool {
    ((row >> ((7 - j) as u8)) & 1) == 1
}

/// The framebuffer index that bit `j` of row `i` lands on.
pub open spec fn sprite_target(x0: u8, y0: u8, i: int, j: int) -> int {
    pixel_index(wrap_col(x0, j), wrap_row(y0, i))
}

/// Whether bit position (i2, j2) comes strictly before (i, j) in
/// row-by-row drawing order.
pub open spec fn pair_before(i: int, j: int, i2: int, j2: int) -> bool {
    i2 < i || (i2 == i && j2 < j)
}

/// Whether some set sprite bit strictly before position (i, j) lands on
/// pixel `p`.
pub open spec fn sprite_hits_upto(rows: Seq<u8>, x0: u8, y0: u8, p: int, i: int, j: int) -> bool {
    exists|i2: int, j2: int|
        0 <= i2 < rows.len() && 0 <= j2 < 8 && pair_before(i, j, i2, j2) && sprite_bit(
            rows[i2],
            j2,
        ) && sprite_target(x0, y0, i2, j2) == p
}

/// Whether some set sprite bit strictly before position (i, j) lands on a
/// pixel that `px` has set.
pub open spec fn collision_upto(
    px: Seq<bool>,
    rows: Seq<u8>,
    x0: u8,
    y0: u8,
    i: int,
    j: int,
) -> bool {
    exists|i2: int, j2: int|
        0 <= i2 < rows.len() && 0 <= j2 < 8 && pair_before(i, j, i2, j2) && sprite_bit(
            rows[i2],
            j2,
        ) && px[sprite_target(x0, y0, i2, j2)]
}

/// Whether some sprite bit strictly before position (i, j) is set.
pub open spec fn any_bit_upto(rows: Seq<u8>, i: int, j: int) -> bool {
    exists|i2: int, j2: int|
        0 <= i2 < rows.len() && 0 <= j2 < 8 && pair_before(i, j, i2, j2) && sprite_bit(rows[i2], j2)
}

/// Whether some set bit of the sprite lands on pixel `p`.
pub open spec fn sprite_hits(rows: Seq<u8>, x0: u8, y0: u8, p: int) -> bool {
    exists|i: int, j: int|
        0 <= i < rows.len() && 0 <= j < 8 && sprite_bit(rows[i], j) && sprite_target(x0, y0, i, j)
            == p
}

/// The framebuffer after the sprite is drawn: each pixel hit by a set bit
/// is toggled.
pub open spec fn draw_px(px: Seq<bool>, rows: Seq<u8>, x0: u8, y0: u8) -> Seq<bool> {
    Seq::new(px.len(), |p: int| px[p] != sprite_hits(rows, x0, y0, p))
}

/// The collision flag of the draw: whether any set bit lands on a pixel
/// that was already set.
pub open spec fn draw_collision(px: Seq<bool>, rows: Seq<u8>, x0: u8, y0: u8) -> bool {
    exists|i: int, j: int|
        0 <= i < rows.len() && 0 <= j < 8 && sprite_bit(rows[i], j) && px[sprite_target(
            x0,
            y0,
            i,
            j,
        )]
}

/// Whether the sprite has any set bit at all (then drawing it changes the
/// framebuffer).
pub open spec fn sprite_any_bit(rows: Seq<u8>) -> bool {
    exists|i: int, j: int| 0 <= i < rows.len() && 0 <= j < 8 && sprite_bit(rows[i], j)
}

// ---------------------------------------------------------------------------
// Instruction semantics

/// The state and the report of one step: either an outcome, or the fault
/// that ended the run.
#[verifier::ext_equal]
pub ghost struct StepResult {
    /// The machine after the step.
    pub st: MachineState,
    /// What the step reported.
    pub out: Result<StepOutcome, Fault>,
}

/// A step that executed a defined instruction and reached state `s`.
pub open spec fn executed(s: MachineState) -> StepResult {
    StepResult { st: s, out: Ok(StepOutcome::Executed) }
}

/// A step that met an undefined bit pattern: a no-op that advances the
/// program counter to `pc2` and reports the pattern as unrecognized.
pub open spec fn skipped_unknown(s: MachineState, pc2: u16) -> StepResult {
    StepResult { st: MachineState { pc: pc2, ..s }, out: Ok(StepOutcome::Unrecognized) }
}

/// A step that hit a fatal condition: the state is left untouched.
pub open spec fn faulted(s: MachineState, f: Fault) -> StepResult {
    StepResult { st: s, out: Err(f) }
}

/// The meaning of executing opcode `op` in state `s`, with `rnd` the byte
/// drawn for the random-mask instruction. Flag-writing ALU instructions
/// compute from the original operands and write VF last.
pub open spec fn execute_state(s: MachineState, op: u16, rnd: u8) -> StepResult {
    let c = op & 0xF000;
    let x = op_x(op);
    let y = op_y(op);
    let kk = op_kk(op);
    let nnn = op_nnn(op);
    let n = op_n(op);
    let vx = s.regs[x];
    let vy = s.regs[y];
    let pc2 = ((s.pc + 2) as u16);
    let pc4 = ((s.pc + 4) as u16);
    if c == 0x0000 {
        if op == 0x00E0 {
            executed(
                MachineState {
                    px: Seq::new(s.px.len(), |p: int| false),
                    dirty: true,
                    pc: pc2,
                    ..s
                },
            )
        } else if op == 0x00EE {
            if s.stack.len() == 0 {
                faulted(s, Fault::StackUnderflow)
            } else {
                executed(MachineState { pc: s.stack.last(), stack: s.stack.drop_last(), ..s })
            }
        } else {
            skipped_unknown(s, pc2)
        }
    } else if c == 0x1000 {
        executed(MachineState { pc: nnn, ..s })
    } else if c == 0x2000 {
        if s.stack.len() >= STACK_LIMIT {
            faulted(s, Fault::StackOverflow)
        } else {
            executed(MachineState { stack: s.stack.push(pc2), pc: nnn, ..s })
        }
    } else if c == 0x3000 {
        executed(MachineState { pc: if vx == kk { pc4 } else { pc2 }, ..s })
    } else if c == 0x4000 {
        executed(MachineState { pc: if vx != kk { pc4 } else { pc2 }, ..s })
    } else if c == 0x5000 {
        if n == 0 {
            executed(MachineState { pc: if vx == vy { pc4 } else { pc2 }, ..s })
        } else {
            skipped_unknown(s, pc2)
        }
    } else if c == 0x6000 {
        executed(MachineState { regs: s.regs.update(x, kk), pc: pc2, ..s })
    } else if c == 0x7000 {
        executed(MachineState { regs: s.regs.update(x, wrap_add8(vx, kk)), pc: pc2, ..s })
    } else if c == 0x8000 {
        if n == 0 {
            executed(MachineState { regs: s.regs.update(x, vy), pc: pc2, ..s })
        } else if n == 1 {
            executed(MachineState { regs: s.regs.update(x, vx | vy), pc: pc2, ..s })
        } else if n == 2 {
            executed(MachineState { regs: s.regs.update(x, vx & vy), pc: pc2, ..s })
        } else if n == 3 {
            executed(MachineState { regs: s.regs.update(x, vx ^ vy), pc: pc2, ..s })
        } else if n == 4 {
            executed(
                MachineState {
                    regs: s.regs.update(x, wrap_add8(vx, vy)).update(
                        15,
                        if vx + vy > 255 { 1u8 } else { 0u8 },
                    ),
                    pc: pc2,
                    ..s
                },
            )
        } else if n == 5 {
            executed(
                MachineState {
                    regs: s.regs.update(x, wrap_sub8(vx, vy)).update(
                        15,
                        if vx > vy { 1u8 } else { 0u8 },
                    ),
                    pc: pc2,
                    ..s
                },
            )
        } else if n == 6 {
            executed(
                MachineState {
                    regs: s.regs.update(x, vx >> 1).update(15, vx & 1),
                    pc: pc2,
                    ..s
                },
            )
        } else if n == 7 {
            executed(
                MachineState {
                    regs: s.regs.update(x, wrap_sub8(vy, vx)).update(
                        15,
                        if vy > vx { 1u8 } else { 0u8 },
                    ),
                    pc: pc2,
                    ..s
                },
            )
        } else if n == 0xE {
            executed(
                MachineState {
                    regs: s.regs.update(x, shl8(vx)).update(15, vx >> 7),
                    pc: pc2,
                    ..s
                },
            )
        } else {
            skipped_unknown(s, pc2)
        }
    } else if c == 0x9000 {
        if n == 0 {
            executed(MachineState { pc: if vx != vy { pc4 } else { pc2 }, ..s })
        } else {
            skipped_unknown(s, pc2)
        }
    } else if c == 0xA000 {
        executed(MachineState { i: nnn, pc: pc2, ..s })
    } else if c == 0xB000 {
        executed(MachineState { pc: ((nnn + s.regs[0]) as u16), ..s })
    } else if c == 0xC000 {
        executed(MachineState { regs: s.regs.update(x, kk & rnd), pc: pc2, ..s })
    } else if c == 0xD000 {
        if s.i + n > MEM_SIZE {
            faulted(s, Fault::MemOutOfRange)
        } else {
            let rows = s.mem.subrange(s.i as int, s.i + n);
            executed(
                MachineState {
                    px: draw_px(s.px, rows, vx, vy),
                    dirty: s.dirty || sprite_any_bit(rows),
                    regs: s.regs.update(
                        15,
                        if draw_collision(s.px, rows, vx, vy) { 1u8 } else { 0u8 },
                    ),
                    pc: pc2,
                    ..s
                },
            )
        }
    } else if c == 0xE000 {
        if kk == 0x9E {
            if vx >= 16 {
                faulted(s, Fault::KeyOutOfRange)
            } else {
                executed(MachineState { pc: if s.keys[vx as int] { pc4 } else { pc2 }, ..s })
            }
        } else if kk == 0xA1 {
            if vx >= 16 {
                faulted(s, Fault::KeyOutOfRange)
            } else {
                executed(MachineState { pc: if !s.keys[vx as int] { pc4 } else { pc2 }, ..s })
            }
        } else {
            skipped_unknown(s, pc2)
        }
    } else if c == 0xF000 {
        if kk == 0x07 {
            executed(MachineState { regs: s.regs.update(x, s.delay), pc: pc2, ..s })
        } else if kk == 0x0A {
            executed(MachineState { waiting: true, wait_reg: x as u8, pc: pc2, ..s })
        } else if kk == 0x15 {
            executed(MachineState { delay: vx, pc: pc2, ..s })
        } else if kk == 0x18 {
            executed(MachineState { sound: vx, pc: pc2, ..s })
        } else if kk == 0x1E {
            executed(MachineState { i: (((s.i + vx) % 4096) as u16), pc: pc2, ..s })
        } else if kk == 0x29 {
            executed(MachineState { i: ((vx * 5) as u16), pc: pc2, ..s })
        } else if kk == 0x33 {
            if s.i + 3 > MEM_SIZE {
                faulted(s, Fault::MemOutOfRange)
            } else {
                executed(
                    MachineState {
                        mem: s.mem.update(s.i as int, ((vx / 100) as u8)).update(
                            s.i + 1,
                            (((vx % 100) / 10) as u8),
                        ).update(s.i + 2, ((vx % 10) as u8)),
                        pc: pc2,
                        ..s
                    },
                )
            }
        } else if kk == 0x55 {
            if s.i + x + 1 > MEM_SIZE {
                faulted(s, Fault::MemOutOfRange)
            } else {
                executed(
                    MachineState {
                        mem: Seq::new(
                            s.mem.len(),
                            |a: int|
                                if s.i <= a && a <= s.i + x {
                                    s.regs[a - s.i]
                                } else {
                                    s.mem[a]
                                },
                        ),
                        pc: pc2,
                        ..s
                    },
                )
            }
        } else if kk == 0x65 {
            if s.i + x + 1 > MEM_SIZE {
                faulted(s, Fault::MemOutOfRange)
            } else {
                executed(
                    MachineState {
                        regs: Seq::new(
                            s.regs.len(),
                            |r: int| if r <= x { s.mem[s.i + r] } else { s.regs[r] },
                        ),
                        pc: pc2,
                        ..s
                    },
                )
            }
        } else {
            skipped_unknown(s, pc2)
        }
    } else {
        skipped_unknown(s, pc2)
    }
}

/// The lowest pressed key at or above index `k`, or 16 if none is.
pub open spec fn first_key_from(keys: Seq<bool>, k: int) -> int
    decreases 16 - k,
{
    if k < 0 || k >= 16 {
        16
    } else if keys[k] {
        k
    } else {
        first_key_from(keys, k + 1)
    }
}

/// The lowest pressed key, or 16 if none is pressed.
pub open spec fn first_key(keys: Seq<bool>) -> int {
    first_key_from(keys, 0)
}

/// One poll of the keypad while blocked: on the first pressed key (scanning
/// from index 0 upward) the key index lands in the designated register and
/// the machine resumes; with no key pressed nothing changes.
pub open spec fn wait_state(s: MachineState) -> MachineState {
    let k = first_key(s.keys);
    if k < 16 {
        MachineState { regs: s.regs.update(s.wait_reg as int, k as u8), waiting: false, ..s }
    } else {
        s
    }
}

/// The meaning of one `step` call: poll the keypad if blocked, otherwise
/// fetch the instruction at `pc` (a fault if it would read past the end of
/// memory) and execute it.
pub open spec fn step_state(s: MachineState, rnd: u8) -> StepResult {
    if s.waiting {
        executed(wait_state(s))
    } else if s.pc + 2 > MEM_SIZE {
        faulted(s, Fault::MemOutOfRange)
    } else {
        execute_state(s, fetch16(s.mem, s.pc), rnd)
    }
}

/// The meaning of one timer tick: each timer counts down by one and
/// saturates at zero. Nothing else moves.
pub open spec fn tick_state(s: MachineState) -> MachineState {
    MachineState {
        delay: if s.delay > 0 { ((s.delay - 1) as u8) } else { 0u8 },
        sound: if s.sound > 0 { ((s.sound - 1) as u8) } else { 0u8 },
        ..s
    }
}

/// Two bit positions of one sprite draw never land on the same column.
proof fn lemma_wrap_col_inj(x0: u8, j1: u8, j2: u8)
    requires
        j1 < 64,
        j2 < 64,
        wrap_col(x0, j1 as int) == wrap_col(x0, j2 as int),
    ensures
        j1 == j2,
{
    assert(((x0 + j1) % 64 == (x0 + j2) % 64 && j1 < 64 && j2 < 64) ==> j1 == j2) by (bit_vector);
}

/// Two row positions of one sprite draw never land on the same row.
proof fn lemma_wrap_row_inj(y0: u8, i1: u8, i2: u8)
    requires
        i1 < 32,
        i2 < 32,
        wrap_row(y0, i1 as int) == wrap_row(y0, i2 as int),
    ensures
        i1 == i2,
{
    assert(((y0 + i1) % 32 == (y0 + i2) % 32 && i1 < 32 && i2 < 32) ==> i1 == i2) by (bit_vector);
}

/// The wrapped coordinates stay on the screen.
pub proof fn lemma_target_bounds(x0: u8, y0: u8, i: int, j: int)
    requires
        0 <= i,
        0 <= j,
    ensures
        0 <= wrap_col(x0, j) < 64,
        0 <= wrap_row(y0, i) < 32,
        0 <= sprite_target(x0, y0, i, j) < NUM_PIXELS,
{
}

/// Distinct bit positions of one draw land on distinct pixels.
pub proof fn lemma_target_inj(x0: u8, y0: u8, i1: int, j1: int, i2: int, j2: int)
    requires
        0 <= i1 < 32,
        0 <= j1 < 8,
        0 <= i2 < 32,
        0 <= j2 < 8,
        sprite_target(x0, y0, i1, j1) == sprite_target(x0, y0, i2, j2),
    ensures
        i1 == i2,
        j1 == j2,
{
    lemma_target_bounds(x0, y0, i1, j1);
    lemma_target_bounds(x0, y0, i2, j2);
    assert(wrap_col(x0, j1) == wrap_col(x0, j2) && wrap_row(y0, i1) == wrap_row(y0, i2));
    lemma_wrap_col_inj(x0, j1 as u8, j2 as u8);
    lemma_wrap_row_inj(y0, i1 as u8, i2 as u8);
}

/// No bit position drawn earlier in the scan lands on the pixel that
/// position (i, j) targets.
pub proof fn lemma_no_prior_hit(rows: Seq<u8>, x0: u8, y0: u8, i: int, j: int)
    requires
        rows.len() <= 32,
        0 <= i < rows.len(),
        0 <= j < 8,
    ensures
        !sprite_hits_upto(rows, x0, y0, sprite_target(x0, y0, i, j), i, j),
{
    if sprite_hits_upto(rows, x0, y0, sprite_target(x0, y0, i, j), i, j) {
        let (i2, j2) = choose|i2: int, j2: int|
            0 <= i2 < rows.len() && 0 <= j2 < 8 && pair_before(i, j, i2, j2) && sprite_bit(
                rows[i2],
                j2,
            ) && sprite_target(x0, y0, i2, j2) == sprite_target(x0, y0, i, j);
        lemma_target_inj(x0, y0, i, j, i2, j2);
    }
}

/// Advancing the scan by one bit position adds exactly that position's
/// contribution.
pub proof fn lemma_hits_step(rows: Seq<u8>, x0: u8, y0: u8, p: int, i: int, j: int)
    requires
        0 <= i < rows.len(),
        0 <= j < 8,
    ensures
        sprite_hits_upto(rows, x0, y0, p, i, j + 1) == (sprite_hits_upto(rows, x0, y0, p, i, j) || (
        sprite_bit(rows[i], j) && sprite_target(x0, y0, i, j) == p)),
{
    if sprite_hits_upto(rows, x0, y0, p, i, j + 1) {
        let (i2, j2) = choose|i2: int, j2: int|
            0 <= i2 < rows.len() && 0 <= j2 < 8 && pair_before(i, j + 1, i2, j2) && sprite_bit(
                rows[i2],
                j2,
            ) && sprite_target(x0, y0, i2, j2) == p;
        if i2 == i && j2 == j {
        } else {
            assert(pair_before(i, j, i2, j2));
            assert(sprite_hits_upto(rows, x0, y0, p, i, j));
        }
    }
    if sprite_hits_upto(rows, x0, y0, p, i, j) {
        let (i2, j2) = choose|i2: int, j2: int|
            0 <= i2 < rows.len() && 0 <= j2 < 8 && pair_before(i, j, i2, j2) && sprite_bit(
                rows[i2],
                j2,
            ) && sprite_target(x0, y0, i2, j2) == p;
        assert(pair_before(i, j + 1, i2, j2));
        assert(sprite_hits_upto(rows, x0, y0, p, i, j + 1));
    }
    if sprite_bit(rows[i], j) && sprite_target(x0, y0, i, j) == p {
        assert(pair_before(i, j + 1, i, j));
        assert(sprite_hits_upto(rows, x0, y0, p, i, j + 1));
    }
}

/// The scan-step law for the collision flag and the any-set-bit flag.
pub proof fn lemma_scan_step(px: Seq<bool>, rows: Seq<u8>, x0: u8, y0: u8, i: int, j: int)
    requires
        0 <= i < rows.len(),
        0 <= j < 8,
    ensures
        collision_upto(px, rows, x0, y0, i, j + 1) == (collision_upto(px, rows, x0, y0, i, j) || (
        sprite_bit(rows[i], j) && px[sprite_target(x0, y0, i, j)])),
        any_bit_upto(rows, i, j + 1) == (any_bit_upto(rows, i, j) || sprite_bit(rows[i], j)),
{
    if collision_upto(px, rows, x0, y0, i, j + 1) {
        let (i2, j2) = choose|i2: int, j2: int|
            0 <= i2 < rows.len() && 0 <= j2 < 8 && pair_before(i, j + 1, i2, j2) && sprite_bit(
                rows[i2],
                j2,
            ) && px[sprite_target(x0, y0, i2, j2)];
        if i2 == i && j2 == j {
        } else {
            assert(pair_before(i, j, i2, j2));
            assert(collision_upto(px, rows, x0, y0, i, j));
        }
    }
    if collision_upto(px, rows, x0, y0, i, j) {
        let (i2, j2) = choose|i2: int, j2: int|
            0 <= i2 < rows.len() && 0 <= j2 < 8 && pair_before(i, j, i2, j2) && sprite_bit(
                rows[i2],
                j2,
            ) && px[sprite_target(x0, y0, i2, j2)];
        assert(pair_before(i, j + 1, i2, j2));
        assert(collision_upto(px, rows, x0, y0, i, j + 1));
    }
    if sprite_bit(rows[i], j) && px[sprite_target(x0, y0, i, j)] {
        assert(pair_before(i, j + 1, i, j));
        assert(collision_upto(px, rows, x0, y0, i, j + 1));
    }
    if any_bit_upto(rows, i, j + 1) {
        let (i2, j2) = choose|i2: int, j2: int|
            0 <= i2 < rows.len() && 0 <= j2 < 8 && pair_before(i, j + 1, i2, j2) && sprite_bit(
                rows[i2],
                j2,
            );
        if i2 == i && j2 == j {
        } else {
            assert(pair_before(i, j, i2, j2));
            assert(any_bit_upto(rows, i, j));
        }
    }
    if any_bit_upto(rows, i, j) {
        let (i2, j2) = choose|i2: int, j2: int|
            0 <= i2 < rows.len() && 0 <= j2 < 8 && pair_before(i, j, i2, j2) && sprite_bit(
                rows[i2],
                j2,
            );
        assert(pair_before(i, j + 1, i2, j2));
        assert(any_bit_upto(rows, i, j + 1));
    }
    if sprite_bit(rows[i], j) {
        assert(pair_before(i, j + 1, i, j));
        assert(any_bit_upto(rows, i, j + 1));
    }
}

/// Finishing a row of the scan is the same as standing at the start of the
/// next row.
pub proof fn lemma_row_step(px: Seq<bool>, rows: Seq<u8>, x0: u8, y0: u8, p: int, i: int)
    ensures
        sprite_hits_upto(rows, x0, y0, p, i, 8) == sprite_hits_upto(rows, x0, y0, p, i + 1, 0),
        collision_upto(px, rows, x0, y0, i, 8) == collision_upto(px, rows, x0, y0, i + 1, 0),
        any_bit_upto(rows, i, 8) == any_bit_upto(rows, i + 1, 0),
{
    if sprite_hits_upto(rows, x0, y0, p, i, 8) {
        let (i2, j2) = choose|i2: int, j2: int|
            0 <= i2 < rows.len() && 0 <= j2 < 8 && pair_before(i, 8, i2, j2) && sprite_bit(
                rows[i2],
                j2,
            ) && sprite_target(x0, y0, i2, j2) == p;
        assert(pair_before(i + 1, 0, i2, j2));
        assert(sprite_hits_upto(rows, x0, y0, p, i + 1, 0));
    }
    if sprite_hits_upto(rows, x0, y0, p, i + 1, 0) {
        let (i2, j2) = choose|i2: int, j2: int|
            0 <= i2 < rows.len() && 0 <= j2 < 8 && pair_before(i + 1, 0, i2, j2) && sprite_bit(
                rows[i2],
                j2,
            ) && sprite_target(x0, y0, i2, j2) == p;
        assert(pair_before(i, 8, i2, j2));
        assert(sprite_hits_upto(rows, x0, y0, p, i, 8));
    }
    if collision_upto(px, rows, x0, y0, i, 8) {
        let (i2, j2) = choose|i2: int, j2: int|
            0 <= i2 < rows.len() && 0 <= j2 < 8 && pair_before(i, 8, i2, j2) && sprite_bit(
                rows[i2],
                j2,
            ) && px[sprite_target(x0, y0, i2, j2)];
        assert(pair_before(i + 1, 0, i2, j2));
        assert(collision_upto(px, rows, x0, y0, i + 1, 0));
    }
    if collision_upto(px, rows, x0, y0, i + 1, 0) {
        let (i2, j2) = choose|i2: int, j2: int|
            0 <= i2 < rows.len() && 0 <= j2 < 8 && pair_before(i + 1, 0, i2, j2) && sprite_bit(
                rows[i2],
                j2,
            ) && px[sprite_target(x0, y0, i2, j2)];
        assert(pair_before(i, 8, i2, j2));
        assert(collision_upto(px, rows, x0, y0, i, 8));
    }
    if any_bit_upto(rows, i, 8) {
        let (i2, j2) = choose|i2: int, j2: int|
            0 <= i2 < rows.len() && 0 <= j2 < 8 && pair_before(i, 8, i2, j2) && sprite_bit(
                rows[i2],
                j2,
            );
        assert(pair_before(i + 1, 0, i2, j2));
        assert(any_bit_upto(rows, i + 1, 0));
    }
    if any_bit_upto(rows, i + 1, 0) {
        let (i2, j2) = choose|i2: int, j2: int|
            0 <= i2 < rows.len() && 0 <= j2 < 8 && pair_before(i + 1, 0, i2, j2) && sprite_bit(
                rows[i2],
                j2,
            );
        assert(pair_before(i, 8, i2, j2));
        assert(any_bit_upto(rows, i, 8));
    }
}

/// A scan that covered every row is the full draw.
pub proof fn lemma_scan_all(px: Seq<bool>, rows: Seq<u8>, x0: u8, y0: u8, p: int)
    ensures
        sprite_hits_upto(rows, x0, y0, p, rows.len() as int, 0) == sprite_hits(rows, x0, y0, p),
        collision_upto(px, rows, x0, y0, rows.len() as int, 0) == draw_collision(px, rows, x0, y0),
        any_bit_upto(rows, rows.len() as int, 0) == sprite_any_bit(rows),
{
    let n = rows.len() as int;
    if sprite_hits_upto(rows, x0, y0, p, n, 0) {
        let (i2, j2) = choose|i2: int, j2: int|
            0 <= i2 < rows.len() && 0 <= j2 < 8 && pair_before(n, 0, i2, j2) && sprite_bit(
                rows[i2],
                j2,
            ) && sprite_target(x0, y0, i2, j2) == p;
        assert(sprite_hits(rows, x0, y0, p));
    }
    if sprite_hits(rows, x0, y0, p) {
        let (i2, j2) = choose|i2: int, j2: int|
            0 <= i2 < rows.len() && 0 <= j2 < 8 && sprite_bit(rows[i2], j2) && sprite_target(
                x0,
                y0,
                i2,
                j2,
            ) == p;
        assert(pair_before(n, 0, i2, j2));
        assert(sprite_hits_upto(rows, x0, y0, p, n, 0));
    }
    if collision_upto(px, rows, x0, y0, n, 0) {
        let (i2, j2) = choose|i2: int, j2: int|
            0 <= i2 < rows.len() && 0 <= j2 < 8 && pair_before(n, 0, i2, j2) && sprite_bit(
                rows[i2],
                j2,
            ) && px[sprite_target(x0, y0, i2, j2)];
        assert(draw_collision(px, rows, x0, y0));
    }
    if draw_collision(px, rows, x0, y0) {
        let (i2, j2) = choose|i2: int, j2: int|
            0 <= i2 < rows.len() && 0 <= j2 < 8 && sprite_bit(rows[i2], j2) && px[sprite_target(
                x0,
                y0,
                i2,
                j2,
            )];
        assert(pair_before(n, 0, i2, j2));
        assert(collision_upto(px, rows, x0, y0, n, 0));
    }
    if any_bit_upto(rows, n, 0) {
        let (i2, j2) = choose|i2: int, j2: int|
            0 <= i2 < rows.len() && 0 <= j2 < 8 && pair_before(n, 0, i2, j2) && sprite_bit(
                rows[i2],
                j2,
            );
        assert(sprite_any_bit(rows));
    }
    if sprite_any_bit(rows) {
        let (i2, j2) = choose|i2: int, j2: int|
            0 <= i2 < rows.len() && 0 <= j2 < 8 && sprite_bit(rows[i2], j2);
        assert(pair_before(n, 0, i2, j2));
        assert(any_bit_upto(rows, n, 0));
    }
}

} // verus!
