use chip8::fonts::font_table;
use chip8::keypad::Keypad;
use chip8::machine::Chip8;
use chip8::memory::Memory;
use chip8::state::{Fault, StepOutcome};

#[test]
fn memory_starts_zeroed() {
    let mut m = Memory::new();
    for a in 0..4096 {
        assert_eq!(m.get_mem(a), 0);
    }
}

#[test]
fn memory_set_then_get() {
    let mut m = Memory::new();
    m.set_mem(0x123, 0xAB);
    assert_eq!(m.get_mem(0x123), 0xAB);
    assert_eq!(m.get_mem(0x124), 0);
}

#[test]
fn font_table_is_eighty_bytes() {
    let f = font_table();
    assert_eq!(f.len(), 80);
    assert_eq!(f[0], 0xF0); // top row of the 0 sprite
    assert_eq!(f[9], 0x70); // bottom row of the 1 sprite
    assert_eq!(f[79], 0x80); // bottom row of the F sprite
}

#[test]
fn load_rom_places_font_and_image() {
    let mut m = Memory::new();
    m.set_mem(0x700, 0x55); // stale data everywhere gets zeroed
    let rom = vec![0xDE, 0xAD, 0xBE, 0xEF];
    assert_eq!(m.load_rom(&rom), Ok(()));
    let f = font_table();
    for k in 0..80 {
        assert_eq!(m.get_mem(k), f[k]);
    }
    for a in 80..0x200 {
        assert_eq!(m.get_mem(a), 0);
    }
    assert_eq!(m.get_mem(0x200), 0xDE);
    assert_eq!(m.get_mem(0x201), 0xAD);
    assert_eq!(m.get_mem(0x202), 0xBE);
    assert_eq!(m.get_mem(0x203), 0xEF);
    for a in 0x204..4096 {
        assert_eq!(m.get_mem(a), 0);
    }
}

#[test]
fn oversized_rom_is_refused() {
    let mut m = Memory::new();
    m.set_mem(0x700, 0x55);
    let rom = vec![1u8; 3585];
    assert_eq!(m.load_rom(&rom), Err(Fault::RomTooLarge));
    assert_eq!(m.get_mem(0x700), 0x55); // untouched on refusal
    let exact = vec![2u8; 3584];
    assert_eq!(m.load_rom(&exact), Ok(()));
    assert_eq!(m.get_mem(4095), 2);
}

#[test]
fn machine_load_rom_clears_screen() {
    let mut c = Chip8::new();
    c.gfx.set_pixel(1, 1, true);
    let rom = vec![0x61, 0x05];
    assert_eq!(c.load_rom(&rom), Ok(()));
    assert!(!c.gfx.has_pixel(1, 1));
    assert!(c.gfx.is_dirty());
    assert_eq!(c.cpu.get_pc(), 0x200);
}

#[test]
fn step_fetches_big_endian_and_executes() {
    let mut c = Chip8::new();
    let rom = vec![0x61, 0x2A, 0x71, 0x01]; // V1 = 42; V1 += 1
    c.load_rom(&rom).unwrap();
    assert_eq!(c.step(), Ok(StepOutcome::Executed));
    assert_eq!(c.cpu.get_register(1), 42);
    assert_eq!(c.cpu.get_pc(), 0x202);
    assert_eq!(c.step(), Ok(StepOutcome::Executed));
    assert_eq!(c.cpu.get_register(1), 43);
}

#[test]
fn step_at_end_of_memory_is_fatal() {
    let mut c = Chip8::new();
    c.execute_op_with(0x1FFF, 0).unwrap(); // jump to 0xFFF
    assert_eq!(c.step(), Err(Fault::MemOutOfRange));
    assert_eq!(c.cpu.get_pc(), 0xFFF); // untouched
}

#[test]
fn keypad_set_and_query() {
    let mut k = Keypad::new();
    for i in 0..16 {
        assert!(!k.is_pressed(i));
    }
    k.set(7, true);
    assert!(k.is_pressed(7));
    assert!(!k.is_pressed(6));
    k.set(7, false);
    assert!(!k.is_pressed(7));
}

#[test]
fn skip_if_key_pressed() {
    let mut c = Chip8::new();
    c.execute_op_with(0x6104, 0).unwrap(); // V1 = 4, pc = 0x202
    c.keypad.set(4, true);
    c.execute_op_with(0xE19E, 0).unwrap();
    assert_eq!(c.cpu.get_pc(), 0x206); // skipped
    c.execute_op_with(0xE1A1, 0).unwrap();
    assert_eq!(c.cpu.get_pc(), 0x208); // not skipped
    c.keypad.set(4, false);
    c.execute_op_with(0xE1A1, 0).unwrap();
    assert_eq!(c.cpu.get_pc(), 0x20C); // skipped
}

#[test]
fn key_skip_with_index_above_fifteen_is_fatal() {
    let mut c = Chip8::new();
    c.execute_op_with(0x6110, 0).unwrap(); // V1 = 16
    assert_eq!(c.execute_op_with(0xE19E, 0), Err(Fault::KeyOutOfRange));
    assert_eq!(c.execute_op_with(0xE1A1, 0), Err(Fault::KeyOutOfRange));
}

#[test]
fn blocking_wait_holds_until_a_key_arrives() {
    let mut c = Chip8::new();
    assert_eq!(c.execute_op_with(0xF30A, 0), Ok(StepOutcome::Executed)); // wait into V3
    assert!(c.cpu.is_waiting());
    assert_eq!(c.cpu.get_pc(), 0x202);
    for _ in 0..5 {
        assert_eq!(c.step(), Ok(StepOutcome::Executed));
        assert!(c.cpu.is_waiting());
        assert_eq!(c.cpu.get_pc(), 0x202); // no fetch while waiting
        assert_eq!(c.cpu.get_register(3), 0);
    }
    c.keypad.set(7, true);
    assert_eq!(c.step(), Ok(StepOutcome::Executed));
    assert!(!c.cpu.is_waiting());
    assert_eq!(c.cpu.get_register(3), 7);
    assert_eq!(c.cpu.get_pc(), 0x202); // resumes fetching from here
}

#[test]
fn blocking_wait_takes_lowest_pressed_key() {
    let mut c = Chip8::new();
    c.execute_op_with(0xF00A, 0).unwrap();
    c.keypad.set(9, true);
    c.keypad.set(2, true);
    assert_eq!(c.step(), Ok(StepOutcome::Executed));
    assert_eq!(c.cpu.get_register(0), 2);
}

#[test]
fn timers_read_write_and_saturate() {
    let mut c = Chip8::new();
    c.execute_op_with(0x6105, 0).unwrap(); // V1 = 5
    c.execute_op_with(0xF115, 0).unwrap(); // delay = V1
    c.execute_op_with(0xF118, 0).unwrap(); // sound = V1
    assert_eq!(c.cpu.get_delay(), 5);
    assert_eq!(c.cpu.get_sound(), 5);
    c.execute_op_with(0xF207, 0).unwrap(); // V2 = delay
    assert_eq!(c.cpu.get_register(2), 5);
    for _ in 0..7 {
        c.tick();
    }
    assert_eq!(c.cpu.get_delay(), 0); // saturated, never wraps
    assert_eq!(c.cpu.get_sound(), 0);
}

#[test]
fn steps_without_ticks_leave_timers_alone() {
    let mut c = Chip8::new();
    // V1 = 5; delay = V1; V2 = 1; V2 += 1
    let rom = vec![0x61, 0x05, 0xF1, 0x15, 0x62, 0x01, 0x72, 0x01];
    c.load_rom(&rom).unwrap();
    assert_eq!(c.step(), Ok(StepOutcome::Executed));
    assert_eq!(c.step(), Ok(StepOutcome::Executed));
    assert_eq!(c.cpu.get_delay(), 5);
    for _ in 0..2 {
        assert_eq!(c.step(), Ok(StepOutcome::Executed));
    }
    assert_eq!(c.cpu.get_delay(), 5); // no tick was asked for
    assert_eq!(c.cpu.get_sound(), 0);
    assert_eq!(c.cpu.get_register(2), 2);
}

#[test]
fn ticks_without_steps_count_down_independently() {
    let mut c = Chip8::new();
    c.execute_op_with(0x6105, 0).unwrap();
    c.execute_op_with(0xF115, 0).unwrap(); // delay = 5, sound = 0
    for _ in 0..3 {
        c.tick();
    }
    assert_eq!(c.cpu.get_delay(), 2); // max(0, 5 - 3)
    assert_eq!(c.cpu.get_sound(), 0);
    assert_eq!(c.cpu.get_pc(), 0x204); // ticking never moves the pc
}
