use chip8::gfx::Gfx;
use chip8::machine::Chip8;
use chip8::state::StepOutcome;

#[test]
fn fresh_screen_is_blank_and_clean() {
    let mut g = Gfx::new();
    assert!(!g.is_dirty());
    for x in 0..64 {
        for y in 0..32 {
            assert!(!g.has_pixel(x, y));
        }
    }
}

#[test]
fn set_pixel_xors_and_marks_dirty() {
    let mut g = Gfx::new();
    g.set_pixel(3, 4, true);
    assert!(g.has_pixel(3, 4));
    assert!(g.is_dirty());
    g.clear_dirty();
    g.set_pixel(3, 4, false);
    assert!(g.has_pixel(3, 4)); // a zero bit never toggles
    assert!(!g.is_dirty());
    g.set_pixel(3, 4, true);
    assert!(!g.has_pixel(3, 4));
}

#[test]
fn draw_sprite_sets_row_bits() {
    let mut g = Gfx::new();
    let rows = vec![0b1010_0001u8];
    let col = g.draw_sprite(8, 2, &rows);
    assert!(!col);
    assert!(g.has_pixel(8, 2));
    assert!(!g.has_pixel(9, 2));
    assert!(g.has_pixel(10, 2));
    assert!(!g.has_pixel(11, 2));
    assert!(g.has_pixel(15, 2));
    assert!(g.is_dirty());
}

#[test]
fn draw_sprite_twice_restores_screen() {
    let mut g = Gfx::new();
    g.set_pixel(1, 1, true); // pre-existing picture
    let rows = vec![0xFFu8, 0xFF];
    let first = g.draw_sprite(0, 0, &rows);
    assert!(first); // it toggled the set pixel at (1, 1) off
    let second = g.draw_sprite(0, 0, &rows);
    assert!(second); // the first draw set pixels the second toggles off
    for x in 0..64 {
        for y in 0..32 {
            assert_eq!(g.has_pixel(x, y), x == 1 && y == 1);
        }
    }
}

#[test]
fn draw_sprite_wraps_both_axes() {
    let mut g = Gfx::new();
    let rows = vec![0xFFu8, 0xFF];
    let col = g.draw_sprite(60, 31, &rows);
    assert!(!col);
    // columns 60..63 and 0..3, rows 31 and 0
    for dx in 0..8usize {
        let x = (60 + dx) % 64;
        assert!(g.has_pixel(x, 31));
        assert!(g.has_pixel(x, 0));
    }
    assert!(!g.has_pixel(4, 31));
    assert!(!g.has_pixel(4, 0));
}

#[test]
fn collision_only_on_overlap() {
    let mut g = Gfx::new();
    let rows = vec![0xF0u8];
    assert!(!g.draw_sprite(0, 0, &rows));
    // 4 pixels apart: no overlap
    let shifted = vec![0x0Fu8];
    assert!(!g.draw_sprite(0, 0, &shifted));
    // overlapping draw collides
    assert!(g.draw_sprite(0, 0, &rows));
}

#[test]
fn draw_opcode_reads_memory_and_sets_flag() {
    let mut c = Chip8::new();
    c.mem.set_mem(0x300, 0x80); // one pixel, top-left of the sprite
    c.execute_op_with(0xA300, 0).unwrap();
    c.execute_op_with(0x6005, 0).unwrap(); // V0 = 5 (x)
    c.execute_op_with(0x6106, 0).unwrap(); // V1 = 6 (y)
    assert_eq!(c.execute_op_with(0xD011, 0), Ok(StepOutcome::Executed));
    assert!(c.gfx.has_pixel(5, 6));
    assert_eq!(c.cpu.get_register(0xF), 0);
    assert!(c.gfx.is_dirty());
    // draw the same sprite again: the pixel toggles off and VF reports it
    assert_eq!(c.execute_op_with(0xD011, 0), Ok(StepOutcome::Executed));
    assert!(!c.gfx.has_pixel(5, 6));
    assert_eq!(c.cpu.get_register(0xF), 1);
}

#[test]
fn draw_opcode_past_end_of_memory_is_fatal() {
    let mut c = Chip8::new();
    c.execute_op_with(0xAFFF, 0).unwrap(); // I = 0xFFF
    assert_eq!(
        c.execute_op_with(0xD012, 0),
        Err(chip8::state::Fault::MemOutOfRange)
    );
}

#[test]
fn clear_screen_opcode_blanks_every_pixel() {
    let mut c = Chip8::new();
    c.mem.set_mem(0x300, 0xFF);
    c.execute_op_with(0xA300, 0).unwrap();
    c.execute_op_with(0xD011, 0).unwrap();
    assert!(c.gfx.has_pixel(0, 0));
    assert_eq!(c.execute_op_with(0x00E0, 0), Ok(StepOutcome::Executed));
    for x in 0..64 {
        for y in 0..32 {
            assert!(!c.gfx.has_pixel(x, y));
        }
    }
    assert!(c.gfx.is_dirty());
}

#[test]
fn zero_row_draw_changes_nothing() {
    let mut c = Chip8::new();
    c.execute_op_with(0xA300, 0).unwrap();
    assert_eq!(c.execute_op_with(0xD010, 0), Ok(StepOutcome::Executed));
    assert_eq!(c.cpu.get_register(0xF), 0);
    for x in 0..64 {
        for y in 0..32 {
            assert!(!c.gfx.has_pixel(x, y));
        }
    }
}
