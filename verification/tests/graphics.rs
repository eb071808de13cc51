use chip8::cpu::Chip8CPU;
use chip8::display::Display;

fn boot(rom: Vec<u8>) -> Chip8CPU {
    let mut cpu = Chip8CPU::new();
    cpu.load_rom(&rom).unwrap();
    cpu
}

fn pixel(cpu: &Chip8CPU, x: usize, y: usize) -> u8 {
    cpu.get_display_buffer()[y * 64 + x]
}

#[test]
fn display_starts_blank() {
    let display = Display::new();
    assert_eq!(display.width, 64);
    assert_eq!(display.height, 32);
    assert_eq!(display.get_buffer().len(), 2048);
    assert!(display.get_buffer().iter().all(|&p| p == 0));
}

#[test]
fn display_set_and_get_pixel() {
    let mut display = Display::new();
    display.set_buffer_item(100, 1);
    assert_eq!(display.get_buffer_item(100), 1);
    assert_eq!(display.get_buffer_item(99), 0);
    display.set_buffer_item(100, 0);
    assert_eq!(display.get_buffer_item(100), 0);
}

#[test]
fn clear_screen_blanks_buffer_and_raises_draw_flag() {
    // Draw glyph 0 at (0, 0), then clear.
    let mut cpu = boot(vec![0xD0, 0x15, 0x00, 0xE0]);
    cpu.cycle().unwrap();
    assert!(cpu.get_display_buffer().iter().any(|&p| p == 1));
    cpu.end_cycle();
    assert!(!cpu.get_draw_flag());
    cpu.cycle().unwrap();
    assert!(cpu.get_display_buffer().iter().all(|&p| p == 0));
    assert_eq!(cpu.get_display_buffer().len(), 64 * 32);
    assert!(cpu.get_draw_flag());
}

#[test]
fn draw_renders_glyph_rows() {
    // I stays 0, where glyph 0 (0xF0 0x90 0x90 0x90 0xF0) lives.
    let mut cpu = boot(vec![0xD0, 0x15]);
    cpu.cycle().unwrap();
    // Top row 0xF0: four pixels on, then off.
    assert_eq!(pixel(&cpu, 0, 0), 1);
    assert_eq!(pixel(&cpu, 1, 0), 1);
    assert_eq!(pixel(&cpu, 2, 0), 1);
    assert_eq!(pixel(&cpu, 3, 0), 1);
    assert_eq!(pixel(&cpu, 4, 0), 0);
    // Second row 0x90: edges of the glyph.
    assert_eq!(pixel(&cpu, 0, 1), 1);
    assert_eq!(pixel(&cpu, 1, 1), 0);
    assert_eq!(pixel(&cpu, 2, 1), 0);
    assert_eq!(pixel(&cpu, 3, 1), 1);
    // No collision on a blank screen.
    assert_eq!(cpu.get_register(0xF), 0);
    assert!(cpu.get_draw_flag());
}

#[test]
fn draw_twice_restores_screen_and_collides() {
    // The same sprite at the same spot, twice.
    let mut cpu = boot(vec![0xD0, 0x15, 0xD0, 0x15]);
    cpu.cycle().unwrap();
    assert!(cpu.get_display_buffer().iter().any(|&p| p == 1));
    cpu.cycle().unwrap();
    // XOR idempotence: the pre-draw (blank) buffer is back, and every
    // previously set bit collided.
    assert!(cpu.get_display_buffer().iter().all(|&p| p == 0));
    assert_eq!(cpu.get_register(0xF), 1);
}

#[test]
fn draw_wraps_around_screen_edges() {
    // V0=62, V1=31: glyph 0's top row runs off the right and bottom edges.
    let mut cpu = boot(vec![0x60, 0x3E, 0x61, 0x1F, 0xD0, 0x12]);
    cpu.cycle().unwrap();
    cpu.cycle().unwrap();
    cpu.cycle().unwrap();
    // Row 0xF0 at y=31: columns 62, 63 wrap to 0, 1.
    assert_eq!(pixel(&cpu, 62, 31), 1);
    assert_eq!(pixel(&cpu, 63, 31), 1);
    assert_eq!(pixel(&cpu, 0, 31), 1);
    assert_eq!(pixel(&cpu, 1, 31), 1);
    assert_eq!(pixel(&cpu, 2, 31), 0);
    // Row 0x90 wraps to y=0: bits at columns 62 and (62+3)%64 == 1.
    assert_eq!(pixel(&cpu, 62, 0), 1);
    assert_eq!(pixel(&cpu, 1, 0), 1);
    assert_eq!(pixel(&cpu, 63, 0), 0);
    assert_eq!(cpu.get_register(0xF), 0);
}

#[test]
fn draw_reports_collision_only_when_pixel_turns_off() {
    // Draw glyph 0, then draw glyph 1 over it; their bits overlap.
    let mut cpu = boot(vec![0xD0, 0x15, 0xA0, 0x05, 0xD0, 0x15]);
    cpu.cycle().unwrap();
    assert_eq!(cpu.get_register(0xF), 0);
    cpu.cycle().unwrap();
    cpu.cycle().unwrap();
    // Glyph 1's rows share set bits with glyph 0's rendering.
    assert_eq!(cpu.get_register(0xF), 1);
}

#[test]
fn end_cycle_clears_draw_flag_only() {
    let mut cpu = boot(vec![0xD0, 0x11]);
    cpu.cycle().unwrap();
    assert!(cpu.get_draw_flag());
    let before: Vec<u8> = cpu.get_display_buffer().clone();
    cpu.end_cycle();
    assert!(!cpu.get_draw_flag());
    assert_eq!(cpu.get_display_buffer(), &before);
}

#[test]
fn draw_wraps_large_register_coordinates() {
    // V0=66 wraps to column 2; the glyph's top row lands at (2..6, 0).
    let mut cpu = boot(vec![0x60, 0x42, 0x61, 0x00, 0xD0, 0x11]);
    cpu.cycle().unwrap();
    cpu.cycle().unwrap();
    cpu.cycle().unwrap();
    assert_eq!(pixel(&cpu, 2, 0), 1);
    assert_eq!(pixel(&cpu, 5, 0), 1);
    assert_eq!(pixel(&cpu, 6, 0), 0);
    assert_eq!(pixel(&cpu, 1, 0), 0);
}
