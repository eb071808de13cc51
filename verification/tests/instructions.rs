use chip8::cpu::Chip8CPU;

fn boot(rom: Vec<u8>) -> Chip8CPU {
    let mut cpu = Chip8CPU::new();
    cpu.load_rom(&rom).unwrap();
    cpu
}

fn run(rom: Vec<u8>, steps: usize) -> Chip8CPU {
    let mut cpu = boot(rom);
    for _ in 0..steps {
        cpu.cycle().unwrap();
    }
    cpu
}

#[test]
fn set_immediate() {
    let cpu = run(vec![0x6A, 0x42], 1);
    assert_eq!(cpu.get_register(0xA), 0x42);
    assert_eq!(cpu.get_program_counter(), 0x202);
}

#[test]
fn add_immediate_wraps_without_flag() {
    // V0 := 0xFF; V0 += 2 wraps to 1 and VF stays 0.
    let cpu = run(vec![0x60, 0xFF, 0x70, 0x02], 2);
    assert_eq!(cpu.get_register(0), 0x01);
    assert_eq!(cpu.get_register(0xF), 0);
}

#[test]
fn assign_register() {
    let cpu = run(vec![0x61, 0x33, 0x80, 0x10], 2);
    assert_eq!(cpu.get_register(0), 0x33);
}

#[test]
fn bitwise_or_and_xor() {
    let or = run(vec![0x60, 0xF0, 0x61, 0x0F, 0x80, 0x11], 3);
    assert_eq!(or.get_register(0), 0xFF);
    let and = run(vec![0x60, 0xF6, 0x61, 0x1F, 0x80, 0x12], 3);
    assert_eq!(and.get_register(0), 0x16);
    let xor = run(vec![0x60, 0xFF, 0x61, 0x0F, 0x80, 0x13], 3);
    assert_eq!(xor.get_register(0), 0xF0);
}

#[test]
fn add_with_carry_sets_vf() {
    // Vx=0xFF, Vy=0x01 -> Vx=0x00, VF=1.
    let cpu = run(vec![0x60, 0xFF, 0x61, 0x01, 0x80, 0x14], 3);
    assert_eq!(cpu.get_register(0), 0x00);
    assert_eq!(cpu.get_register(0xF), 1);
}

#[test]
fn add_without_carry_clears_vf() {
    // Vx=0x01, Vy=0x01 -> Vx=0x02, VF=0.
    let cpu = run(vec![0x60, 0x01, 0x61, 0x01, 0x80, 0x14], 3);
    assert_eq!(cpu.get_register(0), 0x02);
    assert_eq!(cpu.get_register(0xF), 0);
}

#[test]
fn sub_with_borrow_clears_vf() {
    // Vx=0x05, Vy=0x0A -> borrow occurred, VF=0, Vx wraps to 0xFB.
    let cpu = run(vec![0x60, 0x05, 0x61, 0x0A, 0x80, 0x15], 3);
    assert_eq!(cpu.get_register(0xF), 0);
    assert_eq!(cpu.get_register(0), 0xFB);
}

#[test]
fn sub_without_borrow_sets_vf() {
    // Vx=0x0A, Vy=0x05 -> no borrow, VF=1, Vx=5.
    let cpu = run(vec![0x60, 0x0A, 0x61, 0x05, 0x80, 0x15], 3);
    assert_eq!(cpu.get_register(0xF), 1);
    assert_eq!(cpu.get_register(0), 0x05);
}

#[test]
fn sub_reversed() {
    // Vx := Vy - Vx; VF=1 means no borrow.
    let cpu = run(vec![0x60, 0x01, 0x61, 0x05, 0x80, 0x17], 3);
    assert_eq!(cpu.get_register(0), 0x04);
    assert_eq!(cpu.get_register(0xF), 1);
    let borrowed = run(vec![0x60, 0x05, 0x61, 0x01, 0x80, 0x17], 3);
    assert_eq!(borrowed.get_register(0), 0xFC);
    assert_eq!(borrowed.get_register(0xF), 0);
}

#[test]
fn shift_right_keeps_low_bit() {
    let cpu = run(vec![0x60, 0x03, 0x80, 0x06], 2);
    assert_eq!(cpu.get_register(0), 0x01);
    assert_eq!(cpu.get_register(0xF), 1);
}

#[test]
fn shift_left_keeps_high_bit() {
    let cpu = run(vec![0x60, 0x81, 0x80, 0x0E], 2);
    assert_eq!(cpu.get_register(0), 0x02);
    assert_eq!(cpu.get_register(0xF), 1);
}

#[test]
fn skip_if_equal_immediate() {
    let taken = run(vec![0x60, 0x07, 0x30, 0x07], 2);
    assert_eq!(taken.get_program_counter(), 0x206);
    let not_taken = run(vec![0x60, 0x07, 0x30, 0x08], 2);
    assert_eq!(not_taken.get_program_counter(), 0x204);
}

#[test]
fn skip_if_not_equal_immediate() {
    let taken = run(vec![0x60, 0x07, 0x40, 0x08], 2);
    assert_eq!(taken.get_program_counter(), 0x206);
    let not_taken = run(vec![0x60, 0x07, 0x40, 0x07], 2);
    assert_eq!(not_taken.get_program_counter(), 0x204);
}

#[test]
fn skip_on_register_comparison() {
    let equal = run(vec![0x60, 0x03, 0x61, 0x03, 0x50, 0x10], 3);
    assert_eq!(equal.get_program_counter(), 0x208);
    let different = run(vec![0x60, 0x03, 0x61, 0x04, 0x90, 0x10], 3);
    assert_eq!(different.get_program_counter(), 0x208);
}

#[test]
fn jump_sets_program_counter() {
    let cpu = run(vec![0x12, 0x34], 1);
    assert_eq!(cpu.get_program_counter(), 0x234);
}

#[test]
fn jump_plus_v0() {
    let cpu = run(vec![0x60, 0x10, 0xB3, 0x00], 2);
    assert_eq!(cpu.get_program_counter(), 0x310);
}

#[test]
fn set_index_register() {
    let cpu = run(vec![0xA1, 0x23], 1);
    assert_eq!(cpu.get_index_register(), 0x123);
}

#[test]
fn add_index_without_overflow() {
    let cpu = run(vec![0xAF, 0xFE, 0x60, 0x01, 0xF0, 0x1E], 3);
    assert_eq!(cpu.get_index_register(), 0xFFF);
    assert_eq!(cpu.get_register(0xF), 0);
}

#[test]
fn add_index_with_overflow_wraps() {
    // I=0xFFF plus V0=1 passes the 12-bit limit: VF=1, I wraps to 0.
    let cpu = run(vec![0xAF, 0xFF, 0x60, 0x01, 0xF0, 0x1E], 3);
    assert_eq!(cpu.get_index_register(), 0);
    assert_eq!(cpu.get_register(0xF), 1);
}

#[test]
fn font_address_is_five_bytes_per_glyph() {
    let cpu = run(vec![0x60, 0x0A, 0xF0, 0x29], 2);
    assert_eq!(cpu.get_index_register(), 50);
    // The glyph rows of hex digit A start there.
    assert_eq!(cpu.read_memory(50), 0xF0);
}

#[test]
fn bcd_store_splits_decimal_digits() {
    // V0=156 at I=0x300 writes [1, 5, 6].
    let cpu = run(vec![0xA3, 0x00, 0x60, 0x9C, 0xF0, 0x33], 3);
    assert_eq!(cpu.read_memory(0x300), 1);
    assert_eq!(cpu.read_memory(0x301), 5);
    assert_eq!(cpu.read_memory(0x302), 6);
}

#[test]
fn store_registers_writes_block_and_moves_index() {
    let cpu = run(vec![0x60, 0x0B, 0x61, 0x16, 0xA3, 0x00, 0xF1, 0x55], 4);
    assert_eq!(cpu.read_memory(0x300), 0x0B);
    assert_eq!(cpu.read_memory(0x301), 0x16);
    assert_eq!(cpu.get_index_register(), 0x302);
}

#[test]
fn load_registers_round_trip() {
    let cpu = run(
        vec![
            0x60, 0x0B, 0x61, 0x16, 0xA3, 0x00, 0xF1, 0x55, 0x60, 0x00, 0x61, 0x00, 0xA3, 0x00,
            0xF1, 0x65,
        ],
        8,
    );
    assert_eq!(cpu.get_register(0), 0x0B);
    assert_eq!(cpu.get_register(1), 0x16);
    assert_eq!(cpu.get_index_register(), 0x302);
}

#[test]
fn random_masked_by_zero_is_zero() {
    // Cxnn masks the random byte with nn; a zero mask pins the result.
    let cpu = run(vec![0x60, 0x55, 0xC0, 0x00], 2);
    assert_eq!(cpu.get_register(0), 0);
    assert_eq!(cpu.get_program_counter(), 0x204);
}

#[test]
fn random_masked_stays_within_mask() {
    let cpu = run(vec![0xC0, 0x0F], 1);
    assert_eq!(cpu.get_register(0) & 0xF0, 0);
}
