use vstd::prelude::*;

use rand::Rng;

use crate::decode::Instruction;
use crate::decode::decode;
use crate::decode::lemma_decode_wf;
use crate::display::Display;
use crate::fill::FillableVector;
use crate::semantics::CpuView;
use crate::semantics::Fault;
use crate::semantics::KEY_COUNT;
use crate::semantics::LoadError;
use crate::semantics::MEMORY_SIZE;
use crate::semantics::REGISTER_COUNT;
use crate::semantics::ROM_START;
use crate::semantics::STACK_DEPTH;
use crate::semantics::highest_pressed_below;
use crate::semantics::lemma_draw_partial_complete;
use crate::semantics::lemma_draw_partial_row_wrap;
use crate::semantics::lemma_draw_partial_start;
use crate::semantics::lemma_draw_partial_step_hit;
use crate::semantics::lemma_draw_partial_step_miss;
use crate::semantics::lemma_execute_preserves_wf;
use crate::semantics::lemma_sprite_bit_test;
use crate::semantics::mask_address;
use crate::semantics::pc_plus;
use crate::semantics::spec_draw_collision;
use crate::semantics::spec_draw_collision_partial;
use crate::semantics::spec_draw_display;
use crate::semantics::spec_draw_display_partial;
use crate::semantics::spec_execute;
use crate::semantics::spec_fetch;
use crate::semantics::spec_fontset;
use crate::semantics::spec_initial_state;
use crate::semantics::spec_load_registers;
use crate::semantics::spec_loaded_state;
use crate::semantics::spec_process;
use crate::semantics::spec_step;
use crate::semantics::spec_store_registers;
use crate::semantics::spec_tick_timers;
use crate::semantics::sprite_pixel_index;

verus! {

/// The CHIP-8 processor: memory, registers, stack, timers, key state and
/// the display it owns. `load_rom` starts a program from a clean slate and
/// `cycle` runs one fetch-decode-execute step plus one timer tick.
pub struct Chip8CPU {
    /// For the CHIP8 virtual machine, the input comes from a 16-button
    /// keyboard; a slot is nonzero while its key is held down.
    pub key_inputs: Vec<u8>,
    /// The display, exclusively owned by the CPU.
    pub display: Display,
    /// 4096 bytes of memory: the fontset at the bottom, the loaded program
    /// from 0x200 on.
    pub memory: Vec<u8>,
    /// The sixteen 8-bit registers V0..VF; VF is the carry/borrow/collision
    /// flag register.
    pub gpio: Vec<u8>,
    /// 8-bit sound timer.
    pub sound_timer: u8,
    /// 8-bit delay timer.
    pub delay_timer: u8,
    /// 12-bit index register I.
    pub index_register: u16,
    /// 12-bit program counter.
    pub program_counter: u16,
    /// Sixteen slots of return addresses for subroutine calls.
    pub stack: Vec<u16>,
    /// How many stack slots are in use.
    pub stack_pointer: u8,
    /// Set when the display may have changed; the host clears it with
    /// `end_cycle` after redrawing.
    pub draw_flag: bool,
}

impl View for Chip8CPU {
    type V = CpuView;

    open spec fn view(&self) -> CpuView {
        CpuView {
            key_inputs: self.key_inputs@,
            display: self.display@,
            memory: self.memory@,
            gpio: self.gpio@,
            sound_timer: self.sound_timer,
            delay_timer: self.delay_timer,
            index_register: self.index_register,
            program_counter: self.program_counter,
            stack: self.stack@,
            stack_pointer: self.stack_pointer,
            draw_flag: self.draw_flag,
        }
    }
}

/// Write the built-in fontset over the first 80 bytes of `memory`.
pub fn load_fontset(memory: Vec<u8>) -> (r: Vec<u8>)
    requires
        memory@.len() == MEMORY_SIZE,
    ensures
        r@.len() == MEMORY_SIZE,
        forall|i: int| 0 <= i < spec_fontset().len() ==> r@[i] == spec_fontset()[i],
        forall|i: int| spec_fontset().len() <= i < MEMORY_SIZE ==> r@[i] == memory@[i],
{
    let glyphs: [u8; 80] = [
        0xF0, 0x90, 0x90, 0x90, 0xF0, // 0
        0x20, 0x60, 0x20, 0x20, 0x70, // 1
        0xF0, 0x10, 0xF0, 0x80, 0xF0, // 2
        0xF0, 0x10, 0xF0, 0x10, 0xF0, // 3
        0x90, 0x90, 0xF0, 0x10, 0x10, // 4
        0xF0, 0x80, 0xF0, 0x10, 0xF0, // 5
        0xF0, 0x80, 0xF0, 0x90, 0xF0, // 6
        0xF0, 0x10, 0x20, 0x40, 0x40, // 7
        0xF0, 0x90, 0xF0, 0x90, 0xF0, // 8
        0xF0, 0x90, 0xF0, 0x10, 0xF0, // 9
        0xF0, 0x90, 0xF0, 0x90, 0x90, // A
        0xE0, 0x90, 0xE0, 0x90, 0xE0, // B
        0xF0, 0x80, 0x80, 0x80, 0xF0, // C
        0xE0, 0x90, 0x90, 0x90, 0xE0, // D
        0xF0, 0x80, 0xF0, 0x80, 0xF0, // E
        0xF0, 0x80, 0xF0, 0x80, 0x80, // F
    ];
    proof {
        assert(glyphs@ =~= spec_fontset());
    }
    let mut filled = memory;
    let mut index: usize = 0;
    while index < 80
        invariant
            index <= 80,
            filled@.len() == MEMORY_SIZE,
            glyphs@ == spec_fontset(),
            forall|i: int| 0 <= i < index ==> filled@[i] == spec_fontset()[i],
            forall|i: int| index <= i < MEMORY_SIZE ==> filled@[i] == memory@[i],
        decreases 80 - index,
    {
        filled.set(index, glyphs[index]);
        index = index + 1;
    }
    filled
}

impl Chip8CPU {
    /// Structural soundness of the machine: the fixed sizes, pixels 0 or 1,
    /// address registers inside the 12-bit space, and the display geometry.
    pub open spec fn wf(&self) -> bool {
        &&& self@.wf()
        &&& self.display.wf()
    }

    /// A machine at power-on: zeroed but for the fontset, program counter at
    /// the program start address.
    pub fn new() -> (cpu: Chip8CPU)
        ensures
            cpu.wf(),
            cpu@ == spec_initial_state(),
    {
        let cpu = Chip8CPU {
            key_inputs: Vec::with_filled_capacity(KEY_COUNT, 0),
            display: Display::new(),
            memory: load_fontset(Vec::with_filled_capacity(MEMORY_SIZE, 0)),
            gpio: Vec::with_filled_capacity(REGISTER_COUNT, 0),
            sound_timer: 0,
            delay_timer: 0,
            index_register: 0,
            program_counter: ROM_START as u16,
            stack: Vec::with_filled_capacity(STACK_DEPTH, 0),
            stack_pointer: 0,
            draw_flag: false,
        };
        proof {
            assert(cpu@.memory =~= spec_initial_state().memory);
            assert(cpu@ =~= spec_initial_state());
        }
        cpu
    }

    /// Start the given ROM image from a clean slate: a fresh machine whose
    /// memory holds the image from the program start address on. An image
    /// that would run past the end of memory is rejected and the machine is
    /// left untouched.
    pub fn load_rom(&mut self, game_data: &Vec<u8>) -> (r: Result<(), LoadError>)
        ensures
            game_data@.len() <= MEMORY_SIZE - ROM_START ==> {
                &&& r == Ok::<(), LoadError>(())
                &&& final(self)@ == spec_loaded_state(game_data@)
                &&& final(self).wf()
            },
            game_data@.len() > MEMORY_SIZE - ROM_START ==> {
                &&& r == Err::<(), LoadError>(
                    LoadError::RomTooLarge { rom_len: game_data@.len() as usize },
                )
                &&& *final(self) == *old(self)
            },
    {
        if game_data.len() > MEMORY_SIZE - ROM_START {
            return Err(LoadError::RomTooLarge { rom_len: game_data.len() });
        }
        let mut fresh = Chip8CPU::new();
        let mut index: usize = 0;
        while index < game_data.len()
            invariant
                index <= game_data@.len(),
                game_data@.len() <= MEMORY_SIZE - ROM_START,
                fresh@.memory.len() == MEMORY_SIZE,
                forall|i: int|
                    0 <= i < ROM_START + index ==> fresh@.memory[i] == spec_loaded_state(
                        game_data@,
                    ).memory[i],
                forall|i: int|
                    ROM_START + index <= i < MEMORY_SIZE ==> fresh@.memory[i]
                        == spec_initial_state().memory[i],
                fresh@ == (CpuView { memory: fresh@.memory, ..spec_initial_state() }),
                fresh.display.wf(),
            decreases game_data@.len() - index,
        {
            fresh.memory.set(ROM_START + index, game_data[index]);
            index = index + 1;
        }
        proof {
            assert(fresh@.memory =~= spec_loaded_state(game_data@).memory);
            assert(fresh@ =~= spec_loaded_state(game_data@));
        }
        *self = fresh;
        Ok(())
    }

    /// Press or release a key. A slot index past the sixteen keys is
    /// rejected at the boundary: the machine does not change and the call
    /// reports failure.
    pub fn set_key(&mut self, index: u8, pressed: bool) -> (r: bool)
        requires
            old(self).wf(),
        ensures
            index < KEY_COUNT ==> {
                &&& r
                &&& final(self)@ == (CpuView {
                    key_inputs: old(self)@.key_inputs.update(
                        index as int,
                        if pressed {
                            1u8
                        } else {
                            0u8
                        },
                    ),
                    ..old(self)@
                })
                &&& final(self).wf()
            },
            index >= KEY_COUNT ==> !r && *final(self) == *old(self),
    {
        if index as usize >= KEY_COUNT {
            return false;
        }
        self.key_inputs.set(index as usize, if pressed { 1 } else { 0 });
        proof {
            assert(final(self)@ =~= CpuView {
                key_inputs: old(self)@.key_inputs.update(
                    index as int,
                    if pressed {
                        1u8
                    } else {
                        0u8
                    },
                ),
                ..old(self)@
            });
        }
        true
    }

    /// Width of the display, in pixels.
    pub fn get_display_width(&self) -> (r: u32)
        ensures
            r == self.display.width,
    {
        self.display.width
    }

    /// Height of the display, in pixels.
    pub fn get_display_height(&self) -> (r: u32)
        ensures
            r == self.display.height,
    {
        self.display.height
    }

    /// The whole pixel buffer, row-major, for the host renderer.
    pub fn get_display_buffer(&self) -> (r: &Vec<u8>)
        ensures
            r@ == self@.display,
    {
        self.display.get_buffer()
    }

    /// Whether the display may have changed since the host last redrew.
    pub fn get_draw_flag(&self) -> (r: bool)
        ensures
            r == self@.draw_flag,
    {
        self.draw_flag
    }

    /// The host consumed the frame: clear the draw flag.
    pub fn end_cycle(&mut self)
        ensures
            final(self)@ == (CpuView { draw_flag: false, ..old(self)@ }),
            old(self).wf() ==> final(self).wf(),
    {
        self.draw_flag = false;
    }

    /// The value of register Vx.
    pub fn get_register(&self, x: u8) -> (r: u8)
        requires
            x < REGISTER_COUNT,
            self.wf(),
        ensures
            r == self@.gpio[x as int],
    {
        self.gpio[x as usize]
    }

    /// The program counter.
    pub fn get_program_counter(&self) -> (r: u16)
        ensures
            r == self@.program_counter,
    {
        self.program_counter
    }

    /// The index register I.
    pub fn get_index_register(&self) -> (r: u16)
        ensures
            r == self@.index_register,
    {
        self.index_register
    }

    /// How many stack slots are in use.
    pub fn get_stack_pointer(&self) -> (r: u8)
        ensures
            r == self@.stack_pointer,
    {
        self.stack_pointer
    }

    /// The delay timer.
    pub fn get_delay_timer(&self) -> (r: u8)
        ensures
            r == self@.delay_timer,
    {
        self.delay_timer
    }

    /// The sound timer.
    pub fn get_sound_timer(&self) -> (r: u8)
        ensures
            r == self@.sound_timer,
    {
        self.sound_timer
    }

    /// The byte at a memory address.
    pub fn read_memory(&self, address: u16) -> (r: u8)
        requires
            address < MEMORY_SIZE,
            self.wf(),
        ensures
            r == self@.memory[address as int],
    {
        self.memory[address as usize]
    }
}

/// Advance the program counter by a small step, wrapping in the 12-bit
/// address space.
fn pc_add(pc: u16, k: u16) -> (r: u16)
    requires
        pc < MEMORY_SIZE as u16,
        k <= 4,
    ensures
        r == pc_plus(pc, k),
{
    (pc + k) % (MEMORY_SIZE as u16)
}

/// Relies on rand's thread_rng and Rng::gen: one byte from the thread-local
/// generator, seeded by the system. Nothing is promised of the value: every
/// caller is verified for all 256 outcomes.
#[verifier::external_body]
fn random_byte() -> u8 {
    rand::thread_rng().gen::<u8>()
}

/// The `Dxyn` handler: XOR the n-row sprite at memory[I..] onto the display
/// at (Vx, Vy), with wrap-around, collecting the collision bit into VF.
fn draw_sprite(cpu: &mut Chip8CPU, x: u8, y: u8, n: u8)
    requires
        old(cpu).wf(),
        x < 16,
        y < 16,
        n < 16,
    ensures
        final(cpu)@ == (CpuView {
            display: spec_draw_display(
                old(cpu)@,
                old(cpu)@.gpio[x as int],
                old(cpu)@.gpio[y as int],
                n,
            ),
            gpio: old(cpu)@.gpio.update(
                15,
                if spec_draw_collision(
                    old(cpu)@,
                    old(cpu)@.gpio[x as int],
                    old(cpu)@.gpio[y as int],
                    n,
                ) {
                    1u8
                } else {
                    0u8
                },
            ),
            draw_flag: true,
            program_counter: pc_plus(old(cpu)@.program_counter, 2),
            ..old(cpu)@
        }),
        final(cpu).display.width == old(cpu).display.width,
        final(cpu).display.height == old(cpu).display.height,
{
    let ghost pre = old(cpu)@;
    let vx = cpu.gpio[x as usize];
    let vy = cpu.gpio[y as usize];
    let mut collision: bool = false;
    let mut row: u8 = 0;
    proof {
        lemma_draw_partial_start(pre, vx, vy, n);
    }
    while row < n
        invariant
            pre == old(cpu)@,
            pre.wf(),
            n < 16,
            row <= n,
            vx == pre.gpio[x as int],
            vy == pre.gpio[y as int],
            cpu.display.width == old(cpu).display.width,
            cpu.display.height == old(cpu).display.height,
            cpu@.display == spec_draw_display_partial(pre, vx, vy, n, row as int, 0),
            collision == spec_draw_collision_partial(pre, vx, vy, n, row as int, 0),
            cpu@ == (CpuView { display: cpu@.display, ..pre }),
        decreases n - row,
    {
        let addr = ((cpu.index_register as usize) + (row as usize)) % MEMORY_SIZE;
        let sprite_byte = cpu.memory[addr];
        let mut col: u8 = 0;
        while col < 8
            invariant
                pre == old(cpu)@,
                pre.wf(),
                n < 16,
                row < n,
                col <= 8,
                vx == pre.gpio[x as int],
                vy == pre.gpio[y as int],
                sprite_byte == pre.memory[mask_address(pre.index_register + row) as int],
                cpu.display.width == old(cpu).display.width,
                cpu.display.height == old(cpu).display.height,
                cpu@.display == spec_draw_display_partial(pre, vx, vy, n, row as int, col as int),
                collision == spec_draw_collision_partial(pre, vx, vy, n, row as int, col as int),
                cpu@ == (CpuView { display: cpu@.display, ..pre }),
            decreases 8 - col,
        {
            proof {
                lemma_sprite_bit_test(sprite_byte, col);
            }
            if sprite_byte & (0x80 >> col) != 0 {
                proof {
                    lemma_draw_partial_step_hit(pre, vx, vy, n, row as int, col as int);
                }
                let px = ((vx as usize) + (col as usize)) % 64;
                let py = ((vy as usize) + (row as usize)) % 32;
                let index = py * 64 + px;
                proof {
                    assert(index == sprite_pixel_index(vx, vy, row as int, col as int));
                }
                let current = cpu.display.get_buffer_item(index);
                let value: u8;
                if current == 1 {
                    collision = true;
                    value = 0;
                } else {
                    value = 1;
                }
                cpu.display.set_buffer_item(index, value);
                proof {
                    assert(cpu@.display =~= spec_draw_display_partial(
                        pre,
                        vx,
                        vy,
                        n,
                        row as int,
                        col as int + 1,
                    ));
                }
            } else {
                proof {
                    lemma_draw_partial_step_miss(pre, vx, vy, n, row as int, col as int);
                }
            }
            col = col + 1;
        }
        proof {
            lemma_draw_partial_row_wrap(pre, vx, vy, n, row as int);
        }
        row = row + 1;
    }
    proof {
        lemma_draw_partial_complete(pre, vx, vy, n);
    }
    let flag: u8 = if collision {
        1
    } else {
        0
    };
    cpu.gpio.set(15, flag);
    cpu.draw_flag = true;
    cpu.program_counter = pc_add(cpu.program_counter, 2);
}

/// The `Fx55` handler: store V0..=Vx into memory starting at I, then move
/// I past the stored block.
fn store_registers(cpu: &mut Chip8CPU, x: u8)
    requires
        old(cpu).wf(),
        x < 16,
    ensures
        final(cpu)@ == (CpuView {
            memory: spec_store_registers(
                old(cpu)@.memory,
                old(cpu)@.gpio,
                old(cpu)@.index_register,
                x as int + 1,
            ),
            index_register: mask_address(old(cpu)@.index_register + x + 1),
            program_counter: pc_plus(old(cpu)@.program_counter, 2),
            ..old(cpu)@
        }),
        final(cpu).display == old(cpu).display,
{
    let ghost pre = old(cpu)@;
    let mut j: usize = 0;
    while j <= x as usize
        invariant
            pre == old(cpu)@,
            pre.wf(),
            x < 16,
            j <= x as usize + 1,
            cpu.display == old(cpu).display,
            cpu@.memory.len() == MEMORY_SIZE,
            cpu@.memory == spec_store_registers(pre.memory, pre.gpio, pre.index_register, j as int),
            cpu@ == (CpuView { memory: cpu@.memory, ..pre }),
        decreases x as int + 1 - j,
    {
        let addr = ((cpu.index_register as usize) + j) % MEMORY_SIZE;
        let value = cpu.gpio[j];
        cpu.memory.set(addr, value);
        j = j + 1;
        proof {
            assert(cpu@.memory == spec_store_registers(
                pre.memory,
                pre.gpio,
                pre.index_register,
                j as int,
            ));
        }
    }
    cpu.index_register = (((cpu.index_register as usize) + (x as usize) + 1) % MEMORY_SIZE) as u16;
    cpu.program_counter = pc_add(cpu.program_counter, 2);
}

/// The `Fx65` handler: load V0..=Vx from memory starting at I, then move
/// I past the loaded block.
fn load_registers(cpu: &mut Chip8CPU, x: u8)
    requires
        old(cpu).wf(),
        x < 16,
    ensures
        final(cpu)@ == (CpuView {
            gpio: spec_load_registers(
                old(cpu)@.gpio,
                old(cpu)@.memory,
                old(cpu)@.index_register,
                x as int + 1,
            ),
            index_register: mask_address(old(cpu)@.index_register + x + 1),
            program_counter: pc_plus(old(cpu)@.program_counter, 2),
            ..old(cpu)@
        }),
        final(cpu).display == old(cpu).display,
{
    let ghost pre = old(cpu)@;
    let mut j: usize = 0;
    while j <= x as usize
        invariant
            pre == old(cpu)@,
            pre.wf(),
            x < 16,
            j <= x as usize + 1,
            cpu.display == old(cpu).display,
            cpu@.gpio.len() == REGISTER_COUNT,
            cpu@.gpio == spec_load_registers(pre.gpio, pre.memory, pre.index_register, j as int),
            cpu@ == (CpuView { gpio: cpu@.gpio, ..pre }),
        decreases x as int + 1 - j,
    {
        let addr = ((cpu.index_register as usize) + j) % MEMORY_SIZE;
        let value = cpu.memory[addr];
        cpu.gpio.set(j, value);
        j = j + 1;
        proof {
            assert(cpu@.gpio == spec_load_registers(
                pre.gpio,
                pre.memory,
                pre.index_register,
                j as int,
            ));
        }
    }
    cpu.index_register = (((cpu.index_register as usize) + (x as usize) + 1) % MEMORY_SIZE) as u16;
    cpu.program_counter = pc_add(cpu.program_counter, 2);
}

/// The `Fx0A` handler: poll the key pad. With a key down, the highest
/// pressed key lands in Vx and execution moves on; with none, the program
/// counter stays put so the next step re-runs the same instruction.
fn wait_for_key(cpu: &mut Chip8CPU, x: u8)
    requires
        old(cpu).wf(),
        x < 16,
    ensures
        final(cpu)@ == (match highest_pressed_below(old(cpu)@.key_inputs, KEY_COUNT as int) {
            Some(k) => CpuView {
                gpio: old(cpu)@.gpio.update(x as int, k),
                program_counter: pc_plus(old(cpu)@.program_counter, 2),
                ..old(cpu)@
            },
            None => old(cpu)@,
        }),
        final(cpu).display == old(cpu).display,
{
    let ghost pre = old(cpu)@;
    let mut found: bool = false;
    let mut key: u8 = 0;
    let mut index: usize = 0;
    while index < KEY_COUNT
        invariant
            pre == old(cpu)@,
            pre.wf(),
            index <= KEY_COUNT,
            cpu.display == old(cpu).display,
            cpu@ == pre,
            found ==> highest_pressed_below(pre.key_inputs, index as int) == Some(key),
            !found ==> highest_pressed_below(pre.key_inputs, index as int) is None,
        decreases KEY_COUNT - index,
    {
        let pressed = cpu.key_inputs[index];
        if pressed != 0 {
            key = index as u8;
            found = true;
        }
        index = index + 1;
    }
    if found {
        cpu.gpio.set(x as usize, key);
        cpu.program_counter = pc_add(cpu.program_counter, 2);
    }
}

/// Run one decoded instruction against the machine. On `Ok` the machine has
/// taken exactly the transition the semantics give that instruction; on a
/// fault the machine is untouched.
#[verifier::rlimit(100)]
fn execute(cpu: &mut Chip8CPU, instr: Instruction, rb: u8) -> (r: Result<(), Fault>)
    requires
        old(cpu).wf(),
        instr.wf(),
    ensures
        (match spec_execute(old(cpu)@, instr, rb) {
            Ok(v) => r == Ok::<(), Fault>(()) && final(cpu)@ == v,
            Err(f) => r == Err::<(), Fault>(f) && *final(cpu) == *old(cpu),
        }),
        final(cpu).display.width == old(cpu).display.width,
        final(cpu).display.height == old(cpu).display.height,
{
    match instr {
        Instruction::ClearScreen => {
            cpu.display = Display::new();
            cpu.draw_flag = true;
            cpu.program_counter = pc_add(cpu.program_counter, 2);
            Ok(())
        },
        Instruction::Return => {
            if cpu.stack_pointer == 0 {
                return Err(Fault::StackUnderflow { pc: cpu.program_counter });
            }
            let sp = cpu.stack_pointer - 1;
            cpu.stack_pointer = sp;
            let target = cpu.stack[sp as usize];
            cpu.program_counter = (target + 2) % (MEMORY_SIZE as u16);
            Ok(())
        },
        Instruction::Jump { nnn } => {
            cpu.program_counter = nnn;
            Ok(())
        },
        Instruction::Call { nnn } => {
            if cpu.stack_pointer as usize >= STACK_DEPTH {
                return Err(Fault::StackOverflow { pc: cpu.program_counter });
            }
            cpu.stack.set(cpu.stack_pointer as usize, cpu.program_counter);
            cpu.stack_pointer = cpu.stack_pointer + 1;
            cpu.program_counter = nnn;
            Ok(())
        },
        Instruction::SkipIfEqualImmediate { x, nn } => {
            let step: u16 = if cpu.gpio[x as usize] == nn {
                4
            } else {
                2
            };
            cpu.program_counter = pc_add(cpu.program_counter, step);
            Ok(())
        },
        Instruction::SkipIfNotEqualImmediate { x, nn } => {
            let step: u16 = if cpu.gpio[x as usize] != nn {
                4
            } else {
                2
            };
            cpu.program_counter = pc_add(cpu.program_counter, step);
            Ok(())
        },
        Instruction::SkipIfEqualRegister { x, y } => {
            let step: u16 = if cpu.gpio[x as usize] == cpu.gpio[y as usize] {
                4
            } else {
                2
            };
            cpu.program_counter = pc_add(cpu.program_counter, step);
            Ok(())
        },
        Instruction::SetImmediate { x, nn } => {
            cpu.gpio.set(x as usize, nn);
            cpu.program_counter = pc_add(cpu.program_counter, 2);
            Ok(())
        },
        Instruction::AddImmediate { x, nn } => {
            let sum: u16 = cpu.gpio[x as usize] as u16 + nn as u16;
            cpu.gpio.set(x as usize, (sum % 256) as u8);
            cpu.program_counter = pc_add(cpu.program_counter, 2);
            Ok(())
        },
        Instruction::Assign { x, y } => {
            let vy = cpu.gpio[y as usize];
            cpu.gpio.set(x as usize, vy);
            cpu.program_counter = pc_add(cpu.program_counter, 2);
            Ok(())
        },
        Instruction::Or { x, y } => {
            let value = cpu.gpio[x as usize] | cpu.gpio[y as usize];
            cpu.gpio.set(x as usize, value);
            cpu.program_counter = pc_add(cpu.program_counter, 2);
            Ok(())
        },
        Instruction::And { x, y } => {
            let value = cpu.gpio[x as usize] & cpu.gpio[y as usize];
            cpu.gpio.set(x as usize, value);
            cpu.program_counter = pc_add(cpu.program_counter, 2);
            Ok(())
        },
        Instruction::Xor { x, y } => {
            let value = cpu.gpio[x as usize] ^ cpu.gpio[y as usize];
            cpu.gpio.set(x as usize, value);
            cpu.program_counter = pc_add(cpu.program_counter, 2);
            Ok(())
        },
        Instruction::AddWithCarry { x, y } => {
            let vx = cpu.gpio[x as usize];
            let vy = cpu.gpio[y as usize];
            let sum: u16 = vx as u16 + vy as u16;
            let flag: u8 = if sum > 255 {
                1
            } else {
                0
            };
            cpu.gpio.set(15, flag);
            cpu.gpio.set(x as usize, (sum % 256) as u8);
            cpu.program_counter = pc_add(cpu.program_counter, 2);
            Ok(())
        },
        Instruction::SubWithBorrow { x, y } => {
            let vx = cpu.gpio[x as usize];
            let vy = cpu.gpio[y as usize];
            let flag: u8 = if vy > vx {
                0
            } else {
                1
            };
            let value: u8 = if vx >= vy {
                vx - vy
            } else {
                ((vx as u16 + 256) - (vy as u16)) as u8
            };
            cpu.gpio.set(15, flag);
            cpu.gpio.set(x as usize, value);
            cpu.program_counter = pc_add(cpu.program_counter, 2);
            Ok(())
        },
        Instruction::ShiftRight { x } => {
            let vx = cpu.gpio[x as usize];
            cpu.gpio.set(15, vx & 1);
            cpu.gpio.set(x as usize, vx >> 1u8);
            cpu.program_counter = pc_add(cpu.program_counter, 2);
            Ok(())
        },
        Instruction::SubReversed { x, y } => {
            let vx = cpu.gpio[x as usize];
            let vy = cpu.gpio[y as usize];
            let flag: u8 = if vx > vy {
                0
            } else {
                1
            };
            let value: u8 = if vy >= vx {
                vy - vx
            } else {
                ((vy as u16 + 256) - (vx as u16)) as u8
            };
            cpu.gpio.set(15, flag);
            cpu.gpio.set(x as usize, value);
            cpu.program_counter = pc_add(cpu.program_counter, 2);
            Ok(())
        },
        Instruction::ShiftLeft { x } => {
            let vx = cpu.gpio[x as usize];
            cpu.gpio.set(15, vx >> 7u8);
            cpu.gpio.set(x as usize, vx << 1u8);
            cpu.program_counter = pc_add(cpu.program_counter, 2);
            Ok(())
        },
        Instruction::SkipIfNotEqualRegister { x, y } => {
            let step: u16 = if cpu.gpio[x as usize] != cpu.gpio[y as usize] {
                4
            } else {
                2
            };
            cpu.program_counter = pc_add(cpu.program_counter, step);
            Ok(())
        },
        Instruction::SetIndex { nnn } => {
            cpu.index_register = nnn;
            cpu.program_counter = pc_add(cpu.program_counter, 2);
            Ok(())
        },
        Instruction::JumpPlusV0 { nnn } => {
            let target: u16 = nnn + (cpu.gpio[0] as u16);
            cpu.program_counter = target % (MEMORY_SIZE as u16);
            Ok(())
        },
        Instruction::Random { x, nn } => {
            cpu.gpio.set(x as usize, nn & rb);
            cpu.program_counter = pc_add(cpu.program_counter, 2);
            Ok(())
        },
        Instruction::Draw { x, y, n } => {
            draw_sprite(cpu, x, y, n);
            Ok(())
        },
        Instruction::SkipIfKeyPressed { x } => {
            let slot = (cpu.gpio[x as usize] as usize) % 16;
            let step: u16 = if cpu.key_inputs[slot] != 0 {
                4
            } else {
                2
            };
            cpu.program_counter = pc_add(cpu.program_counter, step);
            Ok(())
        },
        Instruction::SkipIfKeyNotPressed { x } => {
            let slot = (cpu.gpio[x as usize] as usize) % 16;
            let step: u16 = if cpu.key_inputs[slot] == 0 {
                4
            } else {
                2
            };
            cpu.program_counter = pc_add(cpu.program_counter, step);
            Ok(())
        },
        Instruction::ReadDelayTimer { x } => {
            let value = cpu.delay_timer;
            cpu.gpio.set(x as usize, value);
            cpu.program_counter = pc_add(cpu.program_counter, 2);
            Ok(())
        },
        Instruction::WaitForKey { x } => {
            wait_for_key(cpu, x);
            Ok(())
        },
        Instruction::SetDelayTimer { x } => {
            cpu.delay_timer = cpu.gpio[x as usize];
            cpu.program_counter = pc_add(cpu.program_counter, 2);
            Ok(())
        },
        Instruction::SetSoundTimer { x } => {
            cpu.sound_timer = cpu.gpio[x as usize];
            cpu.program_counter = pc_add(cpu.program_counter, 2);
            Ok(())
        },
        Instruction::AddIndex { x } => {
            let vx = cpu.gpio[x as usize];
            let sum: u16 = cpu.index_register + (vx as u16);
            let flag: u8 = if sum > 0xFFF {
                1
            } else {
                0
            };
            cpu.gpio.set(15, flag);
            cpu.index_register = sum % (MEMORY_SIZE as u16);
            cpu.program_counter = pc_add(cpu.program_counter, 2);
            Ok(())
        },
        Instruction::FontAddress { x } => {
            cpu.index_register = (cpu.gpio[x as usize] as u16) * 5;
            cpu.program_counter = pc_add(cpu.program_counter, 2);
            Ok(())
        },
        Instruction::StoreBcd { x } => {
            let vx = cpu.gpio[x as usize];
            let base = cpu.index_register as usize;
            cpu.memory.set(base, vx / 100);
            cpu.memory.set((base + 1) % MEMORY_SIZE, (vx / 10) % 10);
            cpu.memory.set((base + 2) % MEMORY_SIZE, vx % 10);
            cpu.program_counter = pc_add(cpu.program_counter, 2);
            Ok(())
        },
        Instruction::StoreRegisters { x } => {
            store_registers(cpu, x);
            Ok(())
        },
        Instruction::LoadRegisters { x } => {
            load_registers(cpu, x);
            Ok(())
        },
    }
}

/// The fetch-decode-execute engine that drives a `Chip8CPU`.
pub struct Processor {}

impl Processor {
    /// The opcode word at the program counter: two consecutive memory
    /// bytes, high byte first.
    pub fn fetch_opcode(cpu: &Chip8CPU) -> (op: u16)
        requires
            cpu.wf(),
        ensures
            op == spec_fetch(cpu@),
    {
        let counter = cpu.program_counter as usize;
        let high = cpu.memory[counter];
        let low = cpu.memory[(counter + 1) % MEMORY_SIZE];
        ((high as u16) << 8u16) | (low as u16)
    }

    /// Fetch, decode and run the instruction at the program counter. On
    /// success the machine has taken exactly one instruction transition,
    /// for some byte of the random source; on a fault it is unchanged.
    pub fn process_opcode(cpu: &mut Chip8CPU) -> (r: Result<(), Fault>)
        requires
            old(cpu).wf(),
        ensures
            final(cpu).wf(),
            (match r {
                Ok(()) => exists|rb: u8|
                    spec_process(old(cpu)@, rb) == Ok::<CpuView, Fault>(final(cpu)@),
                Err(f) => spec_process(old(cpu)@, 0) == Err::<CpuView, Fault>(f) && *final(cpu)
                    == *old(cpu),
            }),
    {
        let op = Self::fetch_opcode(cpu);
        match decode(op) {
            None => Err(Fault::UnknownOpcode { opcode: op, pc: cpu.program_counter }),
            Some(instr) => {
                proof {
                    lemma_decode_wf(op);
                }
                let rb = random_byte();
                let result = execute(cpu, instr, rb);
                proof {
                    lemma_execute_preserves_wf(old(cpu)@, instr, rb);
                }
                match result {
                    Ok(()) => {
                        proof {
                            assert(spec_process(old(cpu)@, rb) == Ok::<CpuView, Fault>(cpu@));
                        }
                        Ok(())
                    },
                    Err(f) => Err(f),
                }
            },
        }
    }

    /// Count both timers down by one, stopping at zero.
    pub fn update_timers(cpu: &mut Chip8CPU)
        ensures
            final(cpu)@ == spec_tick_timers(old(cpu)@),
            final(cpu).display == old(cpu).display,
            old(cpu).wf() ==> final(cpu).wf(),
    {
        if cpu.delay_timer > 0 {
            cpu.delay_timer = cpu.delay_timer - 1;
        }
        if cpu.sound_timer > 0 {
            cpu.sound_timer = cpu.sound_timer - 1;
        }
    }
}

impl Chip8CPU {
    /// One whole machine step: one instruction, then one tick of both
    /// timers. On `Ok` the machine has taken exactly the step transition for
    /// some byte of the random source; on a fault it is unchanged, and the
    /// fault says which instruction went wrong and where.
    pub fn cycle(&mut self) -> (r: Result<(), Fault>)
        requires
            old(self).wf(),
        ensures
            final(self).wf(),
            (match r {
                Ok(()) => exists|rb: u8|
                    spec_step(old(self)@, rb) == Ok::<CpuView, Fault>(final(self)@),
                Err(f) => spec_step(old(self)@, 0) == Err::<CpuView, Fault>(f) && *final(self)
                    == *old(self),
            }),
    {
        let result = Processor::process_opcode(self);
        match result {
            Err(f) => Err(f),
            Ok(()) => {
                let ghost mid = self@;
                Processor::update_timers(self);
                proof {
                    let rb = choose|rb: u8|
                        spec_process(old(self)@, rb) == Ok::<CpuView, Fault>(mid);
                    assert(spec_step(old(self)@, rb) == Ok::<CpuView, Fault>(self@));
                }
                Ok(())
            },
        }
    }
}


} // verus!
