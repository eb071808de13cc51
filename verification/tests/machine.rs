use chip8::cpu::Chip8CPU;
use chip8::cpu::Processor;
use chip8::cpu::load_fontset;
use chip8::decode::Instruction;
use chip8::decode::decode;
use chip8::fill::FillableVector;
use chip8::semantics::Fault;
use chip8::semantics::LoadError;

fn boot(rom: Vec<u8>) -> Chip8CPU {
    let mut cpu = Chip8CPU::new();
    cpu.load_rom(&rom).unwrap();
    cpu
}

#[test]
fn fresh_machine_layout() {
    let cpu = Chip8CPU::new();
    assert_eq!(cpu.get_display_width(), 64);
    assert_eq!(cpu.get_display_height(), 32);
    assert_eq!(cpu.get_display_buffer().len(), 64 * 32);
    assert!(cpu.get_display_buffer().iter().all(|&p| p == 0));
    assert_eq!(cpu.get_program_counter(), 0x200);
    assert_eq!(cpu.get_stack_pointer(), 0);
    assert_eq!(cpu.get_index_register(), 0);
    assert_eq!(cpu.get_delay_timer(), 0);
    assert_eq!(cpu.get_sound_timer(), 0);
    assert!(!cpu.get_draw_flag());
    // The fontset sits at the bottom of memory, zeroes follow.
    assert_eq!(cpu.read_memory(0), 0xF0);
    assert_eq!(cpu.read_memory(4), 0xF0);
    assert_eq!(cpu.read_memory(79), 0x80);
    assert_eq!(cpu.read_memory(80), 0);
    assert_eq!(cpu.read_memory(0x200), 0);
}

#[test]
fn load_fontset_writes_glyphs() {
    let memory = Vec::with_filled_capacity(4096, 0);
    let filled = load_fontset(memory);
    assert_eq!(filled.len(), 4096);
    assert_eq!(filled[0], 0xF0);
    assert_eq!(filled[5], 0x20);
    assert_eq!(filled[79], 0x80);
    assert_eq!(filled[80], 0);
}

#[test]
fn load_rom_places_bytes_at_rom_start() {
    let cpu = boot(vec![0x60, 0x2A]);
    assert_eq!(cpu.read_memory(0x200), 0x60);
    assert_eq!(cpu.read_memory(0x201), 0x2A);
    assert_eq!(cpu.read_memory(0x202), 0);
    assert_eq!(cpu.get_program_counter(), 0x200);
}

#[test]
fn load_rom_accepts_largest_image() {
    let mut cpu = Chip8CPU::new();
    let rom = vec![0xAB; 3584];
    assert!(cpu.load_rom(&rom).is_ok());
    assert_eq!(cpu.read_memory(0x200), 0xAB);
    assert_eq!(cpu.read_memory(0xFFF), 0xAB);
}

#[test]
fn load_rom_rejects_oversized_image() {
    let mut cpu = Chip8CPU::new();
    cpu.load_rom(&vec![0x60, 0x07]).unwrap();
    cpu.cycle().unwrap();
    let oversized = vec![0u8; 3585];
    assert_eq!(
        cpu.load_rom(&oversized),
        Err(LoadError::RomTooLarge { rom_len: 3585 })
    );
    // The machine is untouched by the rejected load.
    assert_eq!(cpu.get_register(0), 0x07);
    assert_eq!(cpu.get_program_counter(), 0x202);
}

#[test]
fn load_rom_resets_previous_state() {
    let mut cpu = Chip8CPU::new();
    cpu.load_rom(&vec![0x60, 0x07]).unwrap();
    cpu.cycle().unwrap();
    assert_eq!(cpu.get_register(0), 0x07);
    cpu.load_rom(&vec![0x00, 0xE0]).unwrap();
    // Clean slate: no register state crosses a load.
    assert_eq!(cpu.get_register(0), 0);
    assert_eq!(cpu.get_program_counter(), 0x200);
}

#[test]
fn timers_count_down_to_zero() {
    // V0 := 3; delay := V0; sound := V0; then jump in place.
    let mut cpu = boot(vec![0x60, 0x03, 0xF0, 0x15, 0xF0, 0x18, 0x12, 0x06]);
    cpu.cycle().unwrap();
    cpu.cycle().unwrap();
    // The delay timer was set to 3, then ticked once in the same step.
    assert_eq!(cpu.get_delay_timer(), 2);
    cpu.cycle().unwrap();
    assert_eq!(cpu.get_delay_timer(), 1);
    assert_eq!(cpu.get_sound_timer(), 2);
    cpu.cycle().unwrap();
    cpu.cycle().unwrap();
    cpu.cycle().unwrap();
    // Both timers bottom out at zero and stay there.
    assert_eq!(cpu.get_delay_timer(), 0);
    assert_eq!(cpu.get_sound_timer(), 0);
}

#[test]
fn read_delay_timer_into_register() {
    // V0 := 5; delay := V0; V1 := delay.
    let mut cpu = boot(vec![0x60, 0x05, 0xF0, 0x15, 0xF1, 0x07]);
    cpu.cycle().unwrap();
    cpu.cycle().unwrap();
    cpu.cycle().unwrap();
    // The delay timer had already ticked once before being read.
    assert_eq!(cpu.get_register(1), 4);
    assert_eq!(cpu.get_delay_timer(), 3);
}

#[test]
fn set_key_rejects_out_of_range_index() {
    let mut cpu = Chip8CPU::new();
    assert!(!cpu.set_key(16, true));
    assert!(!cpu.set_key(255, true));
    assert!(cpu.set_key(15, true));
    assert!(cpu.set_key(0, false));
}

#[test]
fn skip_if_key_pressed() {
    // V0 := 4; skip if key V0 pressed.
    let mut cpu = boot(vec![0x60, 0x04, 0xE0, 0x9E]);
    cpu.set_key(4, true);
    cpu.cycle().unwrap();
    cpu.cycle().unwrap();
    assert_eq!(cpu.get_program_counter(), 0x206);
}

#[test]
fn skip_if_key_pressed_not_taken() {
    let mut cpu = boot(vec![0x60, 0x04, 0xE0, 0x9E]);
    cpu.cycle().unwrap();
    cpu.cycle().unwrap();
    assert_eq!(cpu.get_program_counter(), 0x204);
}

#[test]
fn skip_if_key_not_pressed() {
    let mut cpu = boot(vec![0x60, 0x04, 0xE0, 0xA1]);
    cpu.cycle().unwrap();
    cpu.cycle().unwrap();
    assert_eq!(cpu.get_program_counter(), 0x206);
    let mut held = boot(vec![0x60, 0x04, 0xE0, 0xA1]);
    held.set_key(4, true);
    held.cycle().unwrap();
    held.cycle().unwrap();
    assert_eq!(held.get_program_counter(), 0x204);
}

#[test]
fn wait_for_key_polls_without_advancing() {
    let mut cpu = boot(vec![0xF0, 0x0A]);
    cpu.cycle().unwrap();
    cpu.cycle().unwrap();
    // No key yet: the same instruction re-runs every step.
    assert_eq!(cpu.get_program_counter(), 0x200);
    cpu.set_key(7, true);
    cpu.cycle().unwrap();
    assert_eq!(cpu.get_register(0), 7);
    assert_eq!(cpu.get_program_counter(), 0x202);
}

#[test]
fn wait_for_key_takes_highest_pressed() {
    let mut cpu = boot(vec![0xF3, 0x0A]);
    cpu.set_key(2, true);
    cpu.set_key(0xB, true);
    cpu.cycle().unwrap();
    assert_eq!(cpu.get_register(3), 0xB);
}

#[test]
fn unknown_opcode_is_a_fault() {
    // 8xy nibble 0xF exists in no ALU form.
    let mut cpu = boot(vec![0x80, 0x1F]);
    assert_eq!(
        cpu.cycle(),
        Err(Fault::UnknownOpcode {
            opcode: 0x801F,
            pc: 0x200
        })
    );
    // No silent advance: the machine did not move.
    assert_eq!(cpu.get_program_counter(), 0x200);
}

#[test]
fn unrecognized_machine_call_is_a_fault() {
    // 0nnn other than 00E0/00EE matches nothing.
    let mut cpu = boot(vec![0x02, 0x34]);
    assert_eq!(
        cpu.cycle(),
        Err(Fault::UnknownOpcode {
            opcode: 0x0234,
            pc: 0x200
        })
    );
}

#[test]
fn stack_round_trip_returns_past_call_site() {
    // 0x200: call 0x204; 0x204: return.
    let mut cpu = boot(vec![0x22, 0x04, 0x00, 0x00, 0x00, 0xEE]);
    cpu.cycle().unwrap();
    assert_eq!(cpu.get_program_counter(), 0x204);
    assert_eq!(cpu.get_stack_pointer(), 1);
    cpu.cycle().unwrap();
    assert_eq!(cpu.get_program_counter(), 0x202);
    assert_eq!(cpu.get_stack_pointer(), 0);
}

#[test]
fn stack_overflow_on_seventeenth_call() {
    // The program calls its own address forever.
    let mut cpu = boot(vec![0x22, 0x00]);
    for _ in 0..16 {
        cpu.cycle().unwrap();
    }
    assert_eq!(cpu.get_stack_pointer(), 16);
    assert_eq!(cpu.cycle(), Err(Fault::StackOverflow { pc: 0x200 }));
    assert_eq!(cpu.get_stack_pointer(), 16);
}

#[test]
fn stack_underflow_on_bare_return() {
    let mut cpu = boot(vec![0x00, 0xEE]);
    assert_eq!(cpu.cycle(), Err(Fault::StackUnderflow { pc: 0x200 }));
}

#[test]
fn long_run_stays_in_bounds() {
    // A tight loop that keeps writing registers and jumping back.
    let mut cpu = boot(vec![0x60, 0xFF, 0x70, 0x01, 0x12, 0x00]);
    for _ in 0..1000 {
        cpu.cycle().unwrap();
    }
    assert_eq!(cpu.get_program_counter(), 0x202);
}

#[test]
fn fillable_vector_builds_and_extends() {
    let v: Vec<u8> = Vec::with_filled_capacity(5, 7);
    assert_eq!(v, vec![7, 7, 7, 7, 7]);
    let mut w: Vec<u16> = Vec::with_filled_capacity(2, 1);
    w.fill(3, 9);
    assert_eq!(w, vec![1, 1, 9, 9, 9]);
}

#[test]
fn decoder_recognizes_known_and_rejects_unknown_words() {
    assert_eq!(decode(0x00E0), Some(Instruction::ClearScreen));
    assert_eq!(decode(0x00EE), Some(Instruction::Return));
    assert_eq!(decode(0x1ABC), Some(Instruction::Jump { nnn: 0xABC }));
    assert_eq!(decode(0x8124), Some(Instruction::AddWithCarry { x: 1, y: 2 }));
    assert_eq!(decode(0xD12F), Some(Instruction::Draw { x: 1, y: 2, n: 0xF }));
    assert_eq!(decode(0x801F), None);
    assert_eq!(decode(0x0200), None);
    assert_eq!(decode(0xE1FF), None);
    assert_eq!(decode(0xF1FF), None);
}

#[test]
fn processor_fetches_big_endian_and_ticks_timers() {
    let mut cpu = boot(vec![0x6A, 0x42]);
    assert_eq!(Processor::fetch_opcode(&cpu), 0x6A42);
    Processor::process_opcode(&mut cpu).unwrap();
    assert_eq!(cpu.get_register(0xA), 0x42);
    Processor::update_timers(&mut cpu);
    assert_eq!(cpu.get_delay_timer(), 0);
}
