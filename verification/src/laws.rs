//! Laws of the instruction set, proved from the machine model: the
//! flag-free immediate add, the XOR self-inverse of sprite drawing, the
//! clear-screen effect, the subroutine round trip, the blocking key wait,
//! and the decoupling of timers from instruction execution.

use vstd::prelude::*;
use crate::state::{
    draw_collision, draw_px, execute_state, fetch16, first_key_from, lemma_op_fields,
    lemma_target_bounds, op_kk, op_nnn, op_x, pixel_index, sprite_bit, sprite_hits, sprite_target,
    step_state, tick_state, wf_state, Fault, MachineState, StepOutcome, MEM_SIZE, NUM_KEYS,
    NUM_PIXELS, STACK_LIMIT,
};

verus! {

/// Adding an immediate (class 7xkk) wraps modulo 256 into Vx and writes no
/// flag: the only register that changes is Vx itself, so VF is untouched
/// whenever it is not the destination, and only the program counter moves
/// on.
pub proof fn lemma_add_immediate(s: MachineState, op: u16, rnd: u8)
    requires
        wf_state(s),
        s.pc + 2 <= MEM_SIZE,
        op & 0xF000 == 0x7000,
    ensures
        ({
            let r = execute_state(s, op, rnd);
            &&& r.out == Ok::<StepOutcome, Fault>(StepOutcome::Executed)
            &&& r.st.regs[op_x(op)] == (s.regs[op_x(op)] + op_kk(op)) % 256
            &&& r.st.regs =~= s.regs.update(
                op_x(op),
                (((s.regs[op_x(op)] + op_kk(op)) % 256) as u8),
            )
            &&& (op_x(op) != 15 ==> r.st.regs[15] == s.regs[15])
            &&& r.st == (MachineState { regs: r.st.regs, pc: ((s.pc + 2) as u16), ..s })
        }),
{
    lemma_op_fields(op);
}

/// Drawing a sprite twice at the same spot restores the pixels: XOR is
/// self-inverse. And the second draw reports a collision exactly when the
/// first draw turned some pixel on.
pub proof fn lemma_draw_twice(px: Seq<bool>, rows: Seq<u8>, x0: u8, y0: u8)
    requires
        px.len() == NUM_PIXELS,
        rows.len() <= 15,
    ensures
        draw_px(draw_px(px, rows, x0, y0), rows, x0, y0) =~= px,
        draw_collision(draw_px(px, rows, x0, y0), rows, x0, y0) == (exists|i: int, j: int|
            0 <= i < rows.len() && 0 <= j < 8 && #[trigger] sprite_bit(rows[i], j)
                && !px[sprite_target(x0, y0, i, j)]),
{
    let d1 = draw_px(px, rows, x0, y0);
    assert forall|p: int| 0 <= p < px.len() implies draw_px(d1, rows, x0, y0)[p] == px[p] by {
        assert(d1[p] == (px[p] != sprite_hits(rows, x0, y0, p)));
    }
    if draw_collision(d1, rows, x0, y0) {
        let (i, j) = choose|i: int, j: int|
            0 <= i < rows.len() && 0 <= j < 8 && sprite_bit(rows[i], j) && d1[sprite_target(
                x0,
                y0,
                i,
                j,
            )];
        lemma_target_bounds(x0, y0, i, j);
        assert(sprite_hits(rows, x0, y0, sprite_target(x0, y0, i, j)));
        assert(!px[sprite_target(x0, y0, i, j)]);
    }
    if exists|i: int, j: int|
        0 <= i < rows.len() && 0 <= j < 8 && #[trigger] sprite_bit(rows[i], j)
            && !px[sprite_target(x0, y0, i, j)] {
        let (i, j) = choose|i: int, j: int|
            0 <= i < rows.len() && 0 <= j < 8 && #[trigger] sprite_bit(rows[i], j)
                && !px[sprite_target(x0, y0, i, j)];
        lemma_target_bounds(x0, y0, i, j);
        assert(sprite_hits(rows, x0, y0, sprite_target(x0, y0, i, j)));
        assert(d1[sprite_target(x0, y0, i, j)]);
        assert(draw_collision(d1, rows, x0, y0));
    }
}

/// After the clear-screen instruction, every pixel queries as off.
pub proof fn lemma_clear_screen(s: MachineState, rnd: u8, x: int, y: int)
    requires
        wf_state(s),
        s.pc + 2 <= MEM_SIZE,
        0 <= x < 64,
        0 <= y < 32,
    ensures
        execute_state(s, 0x00E0, rnd).out == Ok::<StepOutcome, Fault>(StepOutcome::Executed),
        !execute_state(s, 0x00E0, rnd).st.px[pixel_index(x, y)],
{
    assert((0x00E0u16 & 0xF000) == 0x0000) by (bit_vector);
}

/// A subroutine call followed by a return is a round trip: the program
/// counter lands on the instruction after the call, and the stack is as
/// it was.
pub proof fn lemma_call_return(s: MachineState, op: u16, rnd1: u8, rnd2: u8)
    requires
        wf_state(s),
        s.pc + 2 <= MEM_SIZE,
        op & 0xF000 == 0x2000,
        s.stack.len() < STACK_LIMIT,
    ensures
        ({
            let c = execute_state(s, op, rnd1);
            let r = execute_state(c.st, 0x00EE, rnd2);
            &&& c.out == Ok::<StepOutcome, Fault>(StepOutcome::Executed)
            &&& c.st.pc == op_nnn(op)
            &&& r.out == Ok::<StepOutcome, Fault>(StepOutcome::Executed)
            &&& r.st.pc == s.pc + 2
            &&& r.st.stack =~= s.stack
            &&& r.st == (MachineState { pc: r.st.pc, ..s })
        }),
{
    lemma_op_fields(op);
    let c = execute_state(s, op, rnd1);
    let ret = ((s.pc + 2) as u16);
    assert(c.st == (MachineState { stack: s.stack.push(ret), pc: op_nnn(op), ..s }));
    assert((0x00EEu16 & 0xF000) == 0x0000) by (bit_vector);
    let r = execute_state(c.st, 0x00EE, rnd2);
    assert(c.st.stack.len() > 0);
    assert(c.st.stack.last() == ret);
    assert(r.st == (MachineState { pc: ret, stack: c.st.stack.drop_last(), ..c.st }));
    assert(s.stack.push(ret).drop_last() =~= s.stack);
}

/// With every key up, the whole scan finds nothing.
proof fn lemma_no_key_from(keys: Seq<bool>, k: int)
    requires
        keys.len() == NUM_KEYS,
        forall|t: int| 0 <= t < NUM_KEYS ==> !keys[t],
    ensures
        first_key_from(keys, k) == 16,
    decreases 16 - k,
{
    if 0 <= k < 16 {
        lemma_no_key_from(keys, k + 1);
    }
}

/// The scan from `a` finds `k` when `k` is pressed and nothing below it is.
proof fn lemma_first_from_below(keys: Seq<bool>, a: int, k: int)
    requires
        keys.len() == NUM_KEYS,
        0 <= a <= k < 16,
        keys[k],
        forall|t: int| a <= t < k ==> !keys[t],
    ensures
        first_key_from(keys, a) == k,
    decreases k - a,
{
    if a < k {
        lemma_first_from_below(keys, a + 1, k);
    }
}

/// A step taken while blocked with no key pressed changes nothing at all:
/// neither the program counter nor any register moves.
pub proof fn lemma_wait_no_key(s: MachineState, rnd: u8)
    requires
        s.waiting,
        s.keys.len() == NUM_KEYS,
        forall|t: int| 0 <= t < NUM_KEYS ==> !s.keys[t],
    ensures
        step_state(s, rnd).st == s,
        step_state(s, rnd).out == Ok::<StepOutcome, Fault>(StepOutcome::Executed),
{
    lemma_no_key_from(s.keys, 0);
}

/// A step taken while blocked, with `k` the lowest pressed key, writes `k`
/// into the designated register, resumes normal fetching, and leaves the
/// program counter and everything else where it was.
pub proof fn lemma_wait_key(s: MachineState, rnd: u8, k: int)
    requires
        wf_state(s),
        s.waiting,
        0 <= k < NUM_KEYS,
        s.keys[k],
        forall|t: int| 0 <= t < k ==> !s.keys[t],
    ensures
        ({
            let r = step_state(s, rnd);
            &&& r.out == Ok::<StepOutcome, Fault>(StepOutcome::Executed)
            &&& r.st.regs =~= s.regs.update(s.wait_reg as int, k as u8)
            &&& !r.st.waiting
            &&& r.st.pc == s.pc
            &&& r.st == (MachineState { regs: r.st.regs, waiting: false, ..s })
        }),
{
    lemma_first_from_below(s.keys, 0, k);
}

/// Executing any instruction other than the two timer writes leaves both
/// timers exactly as they were: instruction throughput cannot move them.
pub proof fn lemma_execute_keeps_timers(s: MachineState, op: u16, rnd: u8)
    requires
        !(op & 0xF000 == 0xF000 && (op_kk(op) == 0x15 || op_kk(op) == 0x18)),
    ensures
        execute_state(s, op, rnd).st.delay == s.delay,
        execute_state(s, op, rnd).st.sound == s.sound,
{
}

/// A step leaves both timers alone unless the fetched instruction is one
/// of the two timer writes; polling for a key or faulting never moves
/// them.
pub proof fn lemma_step_keeps_timers(s: MachineState, rnd: u8)
    requires
        ({
            let op = fetch16(s.mem, s.pc);
            (!s.waiting && s.pc + 2 <= MEM_SIZE) ==> !(op & 0xF000 == 0xF000 && (op_kk(op) == 0x15
                || op_kk(op) == 0x18))
        }),
    ensures
        step_state(s, rnd).st.delay == s.delay,
        step_state(s, rnd).st.sound == s.sound,
{
    if !s.waiting && s.pc + 2 <= MEM_SIZE {
        lemma_execute_keeps_timers(s, fetch16(s.mem, s.pc), rnd);
    }
}

/// The machine after `n` timer ticks.
pub open spec fn ticks(s: MachineState, n: nat) -> MachineState
    decreases n,
{
    if n == 0 {
        s
    } else {
        tick_state(ticks(s, (n - 1) as nat))
    }
}

/// After `n` ticks each timer reads its old value less `n`, floored at
/// zero, and nothing but the two timers has moved.
pub proof fn lemma_ticks(s: MachineState, n: nat)
    ensures
        ticks(s, n).delay as int == if s.delay >= n {
            s.delay - n
        } else {
            0
        },
        ticks(s, n).sound as int == if s.sound >= n {
            s.sound - n
        } else {
            0
        },
        ticks(s, n) == (MachineState { delay: ticks(s, n).delay, sound: ticks(s, n).sound, ..s }),
    decreases n,
{
    if n > 0 {
        lemma_ticks(s, (n - 1) as nat);
    }
}

} // verus!
