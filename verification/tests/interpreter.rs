use chip8::machine::Chip8;
use chip8::state::{Fault, StepOutcome};

fn fresh() -> Chip8 {
    Chip8::new()
}

#[test]
fn load_register_and_advance() {
    let mut c = fresh();
    let r = c.execute_op_with(0x6505, 0);
    assert_eq!(r, Ok(StepOutcome::Executed));
    assert_eq!(c.cpu.get_register(5), 5);
    assert_eq!(c.cpu.get_pc(), 0x202);
}

#[test]
fn add_immediate_wraps_mod_256() {
    let mut c = fresh();
    assert_eq!(c.execute_op_with(0x61C8, 0), Ok(StepOutcome::Executed)); // V1 = 200
    assert_eq!(c.execute_op_with(0x7164, 0), Ok(StepOutcome::Executed)); // V1 += 100
    assert_eq!(c.cpu.get_register(1), 44); // (200 + 100) % 256
}

#[test]
fn add_immediate_writes_no_flag() {
    let mut c = fresh();
    assert_eq!(c.execute_op_with(0x6F01, 0), Ok(StepOutcome::Executed)); // VF = 1
    assert_eq!(c.execute_op_with(0x61FF, 0), Ok(StepOutcome::Executed)); // V1 = 255
    assert_eq!(c.execute_op_with(0x7102, 0), Ok(StepOutcome::Executed)); // V1 += 2, wraps
    assert_eq!(c.cpu.get_register(1), 1);
    assert_eq!(c.cpu.get_register(0xF), 1); // flag untouched by plain add
}

#[test]
fn alu_assign_or_and_xor() {
    let mut c = fresh();
    c.execute_op_with(0x610C, 0).unwrap(); // V1 = 0x0C
    c.execute_op_with(0x620A, 0).unwrap(); // V2 = 0x0A
    c.execute_op_with(0x8121, 0).unwrap(); // V1 |= V2
    assert_eq!(c.cpu.get_register(1), 0x0E);
    c.execute_op_with(0x8122, 0).unwrap(); // V1 &= V2
    assert_eq!(c.cpu.get_register(1), 0x0A);
    c.execute_op_with(0x8123, 0).unwrap(); // V1 ^= V2
    assert_eq!(c.cpu.get_register(1), 0x00);
    c.execute_op_with(0x8120, 0).unwrap(); // V1 = V2
    assert_eq!(c.cpu.get_register(1), 0x0A);
}

#[test]
fn alu_add_sets_carry() {
    let mut c = fresh();
    c.execute_op_with(0x61FA, 0).unwrap(); // V1 = 250
    c.execute_op_with(0x620A, 0).unwrap(); // V2 = 10
    c.execute_op_with(0x8124, 0).unwrap(); // V1 += V2
    assert_eq!(c.cpu.get_register(1), 4); // 260 % 256
    assert_eq!(c.cpu.get_register(0xF), 1);
    c.execute_op_with(0x6103, 0).unwrap();
    c.execute_op_with(0x6204, 0).unwrap();
    c.execute_op_with(0x8124, 0).unwrap();
    assert_eq!(c.cpu.get_register(1), 7);
    assert_eq!(c.cpu.get_register(0xF), 0);
}

#[test]
fn alu_sub_borrow_both_ways() {
    let mut c = fresh();
    c.execute_op_with(0x6105, 0).unwrap(); // V1 = 5
    c.execute_op_with(0x6203, 0).unwrap(); // V2 = 3
    c.execute_op_with(0x8125, 0).unwrap(); // V1 -= V2
    assert_eq!(c.cpu.get_register(1), 2);
    assert_eq!(c.cpu.get_register(0xF), 1);
    c.execute_op_with(0x6103, 0).unwrap(); // V1 = 3
    c.execute_op_with(0x6205, 0).unwrap(); // V2 = 5
    c.execute_op_with(0x8125, 0).unwrap(); // V1 -= V2
    assert_eq!(c.cpu.get_register(1), 254); // (3 - 5) mod 256
    assert_eq!(c.cpu.get_register(0xF), 0);
}

#[test]
fn alu_subn_reversed_operands() {
    let mut c = fresh();
    c.execute_op_with(0x6103, 0).unwrap(); // V1 = 3
    c.execute_op_with(0x6208, 0).unwrap(); // V2 = 8
    c.execute_op_with(0x8127, 0).unwrap(); // V1 = V2 - V1
    assert_eq!(c.cpu.get_register(1), 5);
    assert_eq!(c.cpu.get_register(0xF), 1);
    c.execute_op_with(0x610A, 0).unwrap(); // V1 = 10
    c.execute_op_with(0x6202, 0).unwrap(); // V2 = 2
    c.execute_op_with(0x8127, 0).unwrap(); // V1 = V2 - V1 = -8
    assert_eq!(c.cpu.get_register(1), 248);
    assert_eq!(c.cpu.get_register(0xF), 0);
}

#[test]
fn alu_shifts_capture_edge_bits() {
    let mut c = fresh();
    c.execute_op_with(0x6105, 0).unwrap(); // V1 = 5
    c.execute_op_with(0x8106, 0).unwrap(); // V1 >>= 1
    assert_eq!(c.cpu.get_register(1), 2);
    assert_eq!(c.cpu.get_register(0xF), 1);
    c.execute_op_with(0x6181, 0).unwrap(); // V1 = 0x81
    c.execute_op_with(0x810E, 0).unwrap(); // V1 <<= 1
    assert_eq!(c.cpu.get_register(1), 2);
    assert_eq!(c.cpu.get_register(0xF), 1);
}

#[test]
fn skip_on_immediate_equality() {
    let mut c = fresh();
    c.execute_op_with(0x6107, 0).unwrap(); // pc = 0x202
    c.execute_op_with(0x3107, 0).unwrap(); // V1 == 7: skip
    assert_eq!(c.cpu.get_pc(), 0x206);
    c.execute_op_with(0x3108, 0).unwrap(); // V1 != 8: no skip
    assert_eq!(c.cpu.get_pc(), 0x208);
    c.execute_op_with(0x4108, 0).unwrap(); // V1 != 8: skip
    assert_eq!(c.cpu.get_pc(), 0x20C);
    c.execute_op_with(0x4107, 0).unwrap(); // V1 == 7: no skip
    assert_eq!(c.cpu.get_pc(), 0x20E);
}

#[test]
fn skip_on_register_equality() {
    let mut c = fresh();
    c.execute_op_with(0x6104, 0).unwrap();
    c.execute_op_with(0x6204, 0).unwrap(); // pc = 0x204
    c.execute_op_with(0x5120, 0).unwrap(); // equal: skip
    assert_eq!(c.cpu.get_pc(), 0x208);
    c.execute_op_with(0x9120, 0).unwrap(); // equal: no skip
    assert_eq!(c.cpu.get_pc(), 0x20A);
    c.execute_op_with(0x6205, 0).unwrap(); // V2 = 5, pc = 0x20C
    c.execute_op_with(0x9120, 0).unwrap(); // unequal: skip
    assert_eq!(c.cpu.get_pc(), 0x210);
    c.execute_op_with(0x5120, 0).unwrap(); // unequal: no skip
    assert_eq!(c.cpu.get_pc(), 0x212);
}

#[test]
fn jump_and_jump_with_offset() {
    let mut c = fresh();
    c.execute_op_with(0x1400, 0).unwrap();
    assert_eq!(c.cpu.get_pc(), 0x400);
    c.execute_op_with(0x6004, 0).unwrap(); // V0 = 4
    c.execute_op_with(0xB200, 0).unwrap();
    assert_eq!(c.cpu.get_pc(), 0x204);
}

#[test]
fn call_and_return_round_trip() {
    let mut c = fresh();
    assert_eq!(c.cpu.get_pc(), 0x200);
    c.execute_op_with(0x2400, 0).unwrap(); // call 0x400
    assert_eq!(c.cpu.get_pc(), 0x400);
    assert_eq!(c.cpu.stack_depth(), 1);
    c.execute_op_with(0x00EE, 0).unwrap(); // return
    assert_eq!(c.cpu.get_pc(), 0x202); // right after the call site
    assert_eq!(c.cpu.stack_depth(), 0);
}

#[test]
fn nested_calls_return_in_order() {
    let mut c = fresh();
    c.execute_op_with(0x2300, 0).unwrap();
    c.execute_op_with(0x2400, 0).unwrap();
    assert_eq!(c.cpu.stack_depth(), 2);
    c.execute_op_with(0x00EE, 0).unwrap();
    assert_eq!(c.cpu.get_pc(), 0x302);
    c.execute_op_with(0x00EE, 0).unwrap();
    assert_eq!(c.cpu.get_pc(), 0x202);
}

#[test]
fn return_on_empty_stack_is_fatal() {
    let mut c = fresh();
    let r = c.execute_op_with(0x00EE, 0);
    assert_eq!(r, Err(Fault::StackUnderflow));
    assert_eq!(c.cpu.get_pc(), 0x200); // untouched
}

#[test]
fn seventeenth_nested_call_overflows() {
    let mut c = fresh();
    for _ in 0..16 {
        assert_eq!(c.execute_op_with(0x2300, 0), Ok(StepOutcome::Executed));
    }
    assert_eq!(c.cpu.stack_depth(), 16);
    assert_eq!(c.execute_op_with(0x2300, 0), Err(Fault::StackOverflow));
    assert_eq!(c.cpu.stack_depth(), 16);
}

#[test]
fn set_index_register() {
    let mut c = fresh();
    c.execute_op_with(0xA123, 0).unwrap();
    assert_eq!(c.cpu.get_i(), 0x123);
}

#[test]
fn add_to_index_wraps_in_address_space() {
    let mut c = fresh();
    c.execute_op_with(0xAFFF, 0).unwrap(); // I = 0xFFF
    c.execute_op_with(0x6102, 0).unwrap(); // V1 = 2
    c.execute_op_with(0xF11E, 0).unwrap(); // I += V1
    assert_eq!(c.cpu.get_i(), 1); // (0xFFF + 2) mod 4096
}

#[test]
fn font_address_is_five_bytes_per_digit() {
    let mut c = fresh();
    c.execute_op_with(0x610A, 0).unwrap(); // V1 = 0xA
    c.execute_op_with(0xF129, 0).unwrap();
    assert_eq!(c.cpu.get_i(), 50);
}

#[test]
fn bcd_stores_hundreds_tens_units() {
    let mut c = fresh();
    c.execute_op_with(0x62EA, 0).unwrap(); // V2 = 234
    c.execute_op_with(0xA300, 0).unwrap(); // I = 0x300
    assert_eq!(c.execute_op_with(0xF233, 0), Ok(StepOutcome::Executed));
    assert_eq!(c.mem.get_mem(0x300), 2);
    assert_eq!(c.mem.get_mem(0x301), 3);
    assert_eq!(c.mem.get_mem(0x302), 4);
}

#[test]
fn bcd_past_end_of_memory_is_fatal() {
    let mut c = fresh();
    c.execute_op_with(0xAFFF, 0).unwrap(); // I = 0xFFF
    c.execute_op_with(0x6107, 0).unwrap();
    assert_eq!(c.execute_op_with(0xF133, 0), Err(Fault::MemOutOfRange));
}

#[test]
fn store_and_load_register_block() {
    let mut c = fresh();
    c.execute_op_with(0x600A, 0).unwrap(); // V0 = 10
    c.execute_op_with(0x6114, 0).unwrap(); // V1 = 20
    c.execute_op_with(0x621E, 0).unwrap(); // V2 = 30
    c.execute_op_with(0xA300, 0).unwrap();
    assert_eq!(c.execute_op_with(0xF255, 0), Ok(StepOutcome::Executed)); // store V0..V2
    assert_eq!(c.mem.get_mem(0x300), 10);
    assert_eq!(c.mem.get_mem(0x301), 20);
    assert_eq!(c.mem.get_mem(0x302), 30);
    c.execute_op_with(0x6000, 0).unwrap();
    c.execute_op_with(0x6100, 0).unwrap();
    c.execute_op_with(0x6200, 0).unwrap();
    assert_eq!(c.execute_op_with(0xF265, 0), Ok(StepOutcome::Executed)); // load V0..V2
    assert_eq!(c.cpu.get_register(0), 10);
    assert_eq!(c.cpu.get_register(1), 20);
    assert_eq!(c.cpu.get_register(2), 30);
}

#[test]
fn register_block_past_end_of_memory_is_fatal() {
    let mut c = fresh();
    c.execute_op_with(0xAFFE, 0).unwrap(); // I = 0xFFE
    assert_eq!(c.execute_op_with(0xF255, 0), Err(Fault::MemOutOfRange)); // 0xFFE + 3 > 4096
}

#[test]
fn random_mask_with_zero_immediate_is_zero() {
    let mut c = fresh();
    c.execute_op_with(0x6177, 0).unwrap();
    // the mask is 0, so whatever byte was drawn, V1 becomes 0
    assert_eq!(c.execute_op(0xC100), Ok(StepOutcome::Executed));
    assert_eq!(c.cpu.get_register(1), 0);
}

#[test]
fn random_mask_stays_inside_immediate() {
    let mut c = fresh();
    for _ in 0..32 {
        c.execute_op(0xC10F).unwrap();
        assert_eq!(c.cpu.get_register(1) & 0xF0, 0);
    }
}

#[test]
fn random_mask_with_supplied_byte_is_exact() {
    let mut c = fresh();
    let r = c.execute_op_with(0xC1F0, 0xAB);
    assert_eq!(r, Ok(StepOutcome::Executed));
    assert_eq!(c.cpu.get_register(1), 0xA0); // 0xF0 & 0xAB
}

#[test]
fn unrecognized_patterns_are_skipped() {
    let mut c = fresh();
    assert_eq!(c.execute_op_with(0x0123, 0), Ok(StepOutcome::Unrecognized));
    assert_eq!(c.cpu.get_pc(), 0x202);
    assert_eq!(c.execute_op_with(0x5121, 0), Ok(StepOutcome::Unrecognized));
    assert_eq!(c.cpu.get_pc(), 0x204);
    assert_eq!(c.execute_op_with(0x8128, 0), Ok(StepOutcome::Unrecognized));
    assert_eq!(c.execute_op_with(0x9121, 0), Ok(StepOutcome::Unrecognized));
    assert_eq!(c.execute_op_with(0xE100, 0), Ok(StepOutcome::Unrecognized));
    assert_eq!(c.execute_op_with(0xF1FF, 0), Ok(StepOutcome::Unrecognized));
    assert_eq!(c.cpu.get_pc(), 0x20C);
    assert_eq!(c.cpu.get_register(1), 0);
}

#[test]
fn decode_op_gives_low_twelve_bits() {
    let mut c = fresh();
    assert_eq!(c.cpu.decode_op(0xABCD), 0xBCD);
    assert_eq!(c.cpu.decode_op(0x00EE), 0x0EE);
}
