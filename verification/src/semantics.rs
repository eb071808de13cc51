use vstd::prelude::*;

use crate::decode::Instruction;
use crate::decode::spec_decode;

verus! {

/// Bytes of addressable memory.
pub const MEMORY_SIZE: usize = 4096;

/// Number of general-purpose registers (V0..VF).
pub const REGISTER_COUNT: usize = 16;

/// Call-stack capacity, in return addresses.
pub const STACK_DEPTH: usize = 16;

/// Number of keys on the input pad.
pub const KEY_COUNT: usize = 16;

/// Flat size of the pixel buffer.
pub const DISPLAY_SIZE: usize = 2048;

/// Memory address at which a loaded program begins, and where the program
/// counter starts.
pub const ROM_START: usize = 0x200;

/// A fatal interpreter condition: stepping stops and the host is told which
/// instruction went wrong, and where.
#[derive(Clone, Copy, PartialEq, Eq, Structural, Debug)]
pub enum Fault {
    /// The fetched word matches no CHIP-8 instruction.
    UnknownOpcode { opcode: u16, pc: u16 },
    /// A `2nnn` call past the sixteenth nested subroutine.
    StackOverflow { pc: u16 },
    /// A `00EE` return with an empty stack.
    StackUnderflow { pc: u16 },
}

/// Rejection of a ROM image that does not fit between the load offset and
/// the end of memory. Recoverable: the machine is left as it was.
#[derive(Clone, Copy, PartialEq, Eq, Structural, Debug)]
pub enum LoadError {
    RomTooLarge { rom_len: usize },
}

/// The mathematical state of the machine: every contract of the interpreter
/// speaks of this view.
#[verifier::ext_equal]
pub ghost struct CpuView {
    /// One slot per key, nonzero while the key is held down.
    pub key_inputs: Seq<u8>,
    /// The 64x32 pixel buffer, row-major, one byte (0 or 1) per pixel.
    pub display: Seq<u8>,
    /// 4096 bytes: fontset, program, and free store.
    pub memory: Seq<u8>,
    /// The sixteen 8-bit registers V0..VF.
    pub gpio: Seq<u8>,
    /// 8-bit sound countdown timer.
    pub sound_timer: u8,
    /// 8-bit delay countdown timer.
    pub delay_timer: u8,
    /// The 12-bit index register I.
    pub index_register: u16,
    /// The 12-bit program counter.
    pub program_counter: u16,
    /// Sixteen return-address slots.
    pub stack: Seq<u16>,
    /// How many stack slots are in use.
    pub stack_pointer: u8,
    /// Set when the pixel buffer may have changed; the host clears it.
    pub draw_flag: bool,
}

impl CpuView {
    /// Structural soundness of a machine state: fixed sizes, pixels either
    /// 0 or 1, and every address register inside the 12-bit address space.
    pub open spec fn wf(self) -> bool {
        &&& self.key_inputs.len() == KEY_COUNT
        &&& self.display.len() == DISPLAY_SIZE
        &&& (forall|i: int|
            0 <= i < self.display.len() ==> self.display[i] == 0 || self.display[i] == 1)
        &&& self.memory.len() == MEMORY_SIZE
        &&& self.gpio.len() == REGISTER_COUNT
        &&& self.stack.len() == STACK_DEPTH
        &&& self.stack_pointer <= STACK_DEPTH
        &&& self.index_register < MEMORY_SIZE
        &&& self.program_counter < MEMORY_SIZE
        &&& (forall|i: int| 0 <= i < self.stack.len() ==> self.stack[i] < MEMORY_SIZE)
    }
}

/// Wrap a computed address into the 12-bit address space [0, 4096).
pub open spec fn mask_address(a: int) -> u16 {
    (a % (MEMORY_SIZE as int)) as u16
}

/// The program counter after advancing `k` bytes.
pub open spec fn pc_plus(pc: u16, k: u16) -> u16 {
    mask_address(pc + k)
}

/// The opcode word at the program counter: two consecutive bytes, high
/// byte first.
pub open spec fn spec_fetch(s: CpuView) -> u16 {
    ((s.memory[s.program_counter as int] as u16) << 8u16) | (s.memory[
        mask_address(s.program_counter + 1) as int
    ] as u16)
}

/// 8-bit wrapping sum.
pub open spec fn wrapping_add8(a: u8, b: u8) -> u8 {
    ((a + b) % 256) as u8
}

/// 8-bit wrapping difference.
pub open spec fn wrapping_sub8(a: u8, b: u8) -> u8 {
    if a >= b {
        (a - b) as u8
    } else {
        (a - b + 256) as u8
    }
}

/// The key slot named by a register value: the pad has sixteen keys, so the
/// value is reduced modulo 16.
pub open spec fn key_slot(v: u8) -> int {
    (v % 16) as int
}

/// The highest pressed key with index below `k`, if any.
pub open spec fn highest_pressed_below(keys: Seq<u8>, k: int) -> Option<u8>
    decreases k,
{
    if k <= 0 {
        None
    } else if keys[k - 1] != 0 {
        Some((k - 1) as u8)
    } else {
        highest_pressed_below(keys, k - 1)
    }
}

/// Flat pixel index targeted by sprite row `r`, bit column `c`, for a sprite
/// drawn at (vx, vy): coordinates wrap around the screen edges.
pub open spec fn sprite_pixel_index(vx: u8, vy: u8, r: int, c: int) -> int {
    ((vy + r) % 32) * 64 + (vx + c) % 64
}

/// Whether bit column `c` (0 is the leftmost pixel) of sprite row `r` is set.
/// Row bytes are read from memory starting at the index register.
pub open spec fn sprite_bit_set(mem: Seq<u8>, i: u16, r: int, c: int) -> bool {
    (mem[mask_address(i + r) as int] >> ((7 - c) as u8)) & 1 == 1
}

/// Whether the sprite of `Dxyn` flips the pixel at flat index `p` through
/// its row `r`, column `c`.
pub open spec fn sprite_hit_at(
    mem: Seq<u8>,
    i: u16,
    vx: u8,
    vy: u8,
    n: u8,
    p: int,
    r: int,
    c: int,
) -> bool {
    &&& 0 <= r < n
    &&& 0 <= c < 8
    &&& p == sprite_pixel_index(vx, vy, r, c)
    &&& sprite_bit_set(mem, i, r, c)
}

/// Whether the sprite of `Dxyn` flips the pixel at flat index `p`.
pub open spec fn sprite_hits(mem: Seq<u8>, i: u16, vx: u8, vy: u8, n: u8, p: int) -> bool {
    exists|r: int, c: int| sprite_hit_at(mem, i, vx, vy, n, p, r, c)
}

/// A pixel after an XOR with 1.
pub open spec fn flip_pixel(v: u8) -> u8 {
    if v == 0 {
        1
    } else {
        0
    }
}

/// The display after `Dxyn`: exactly the pixels the sprite hits are flipped.
pub open spec fn spec_draw_display(s: CpuView, vx: u8, vy: u8, n: u8) -> Seq<u8> {
    Seq::new(
        s.display.len(),
        |p: int|
            if sprite_hits(s.memory, s.index_register, vx, vy, n, p) {
                flip_pixel(s.display[p])
            } else {
                s.display[p]
            },
    )
}

/// Whether `Dxyn` turns some pixel from on to off: the collision bit.
pub open spec fn spec_draw_collision(s: CpuView, vx: u8, vy: u8, n: u8) -> bool {
    exists|p: int|
        0 <= p < s.display.len() && sprite_hits(s.memory, s.index_register, vx, vy, n, p)
            && s.display[p] == 1
}

/// Whether the sprite flips pixel `p` through a (row, column) pair that the
/// drawing loop has already visited: a row before `r`, or row `r` at a
/// column before `c`.
pub open spec fn sprite_hits_before(
    mem: Seq<u8>,
    i: u16,
    vx: u8,
    vy: u8,
    n: u8,
    p: int,
    r: int,
    c: int,
) -> bool {
    exists|r2: int, c2: int|
        sprite_hit_at(mem, i, vx, vy, n, p, r2, c2) && (r2 < r || (r2 == r && c2 < c))
}

/// The display after the drawing loop has visited every (row, column) pair
/// before row `r`, column `c`.
pub open spec fn spec_draw_display_partial(
    s: CpuView,
    vx: u8,
    vy: u8,
    n: u8,
    r: int,
    c: int,
) -> Seq<u8> {
    Seq::new(
        s.display.len(),
        |p: int|
            if sprite_hits_before(s.memory, s.index_register, vx, vy, n, p, r, c) {
                flip_pixel(s.display[p])
            } else {
                s.display[p]
            },
    )
}

/// Whether the drawing loop has seen a collision before row `r`, column `c`.
pub open spec fn spec_draw_collision_partial(
    s: CpuView,
    vx: u8,
    vy: u8,
    n: u8,
    r: int,
    c: int,
) -> bool {
    exists|p: int|
        0 <= p < s.display.len() && sprite_hits_before(s.memory, s.index_register, vx, vy, n, p, r, c)
            && s.display[p] == 1
}

/// A sprite pixel target lies inside the 64x32 buffer.
pub proof fn lemma_sprite_pixel_index_bounds(vx: u8, vy: u8, r: int, c: int)
    requires
        0 <= r,
        0 <= c,
    ensures
        0 <= sprite_pixel_index(vx, vy, r, c) < DISPLAY_SIZE,
{
    assert(0 <= (vy + r) % 32 < 32);
    assert(0 <= (vx + c) % 64 < 64);
}

/// Distinct (row, column) pairs of one sprite land on distinct pixels: a
/// sprite is at most 15 rows tall and 8 columns wide, so the wrap-around
/// modulo 32 and 64 cannot make two of its cells coincide.
pub proof fn lemma_sprite_pixel_index_injective(
    vx: u8,
    vy: u8,
    r1: int,
    c1: int,
    r2: int,
    c2: int,
)
    requires
        0 <= r1 < 16,
        0 <= c1 < 8,
        0 <= r2 < 16,
        0 <= c2 < 8,
        sprite_pixel_index(vx, vy, r1, c1) == sprite_pixel_index(vx, vy, r2, c2),
    ensures
        r1 == r2,
        c1 == c2,
{
    let a1 = (vy + r1) % 32;
    let a2 = (vy + r2) % 32;
    let b1 = (vx + c1) % 64;
    let b2 = (vx + c2) % 64;
    assert(0 <= a1 < 32 && 0 <= a2 < 32 && 0 <= b1 < 64 && 0 <= b2 < 64);
    assert(a1 * 64 + b1 == a2 * 64 + b2);
    assert(a1 == a2 && b1 == b2);
    vstd::arithmetic::div_mod::lemma_fundamental_div_mod(vy + r1, 32);
    vstd::arithmetic::div_mod::lemma_fundamental_div_mod(vy + r2, 32);
    assert(r2 - r1 == 32 * ((vy + r2) / 32 - (vy + r1) / 32));
    vstd::arithmetic::div_mod::lemma_fundamental_div_mod(vx + c1, 64);
    vstd::arithmetic::div_mod::lemma_fundamental_div_mod(vx + c2, 64);
    assert(c2 - c1 == 64 * ((vx + c2) / 64 - (vx + c1) / 64));
}

/// Before the drawing loop has visited anything, nothing is flipped and no
/// collision has been seen.
pub proof fn lemma_draw_partial_start(s: CpuView, vx: u8, vy: u8, n: u8)
    ensures
        spec_draw_display_partial(s, vx, vy, n, 0, 0) == s.display,
        !spec_draw_collision_partial(s, vx, vy, n, 0, 0),
{
    assert(spec_draw_display_partial(s, vx, vy, n, 0, 0) =~= s.display);
}

/// Finishing a row at column 8 is the same point as starting the next row.
pub proof fn lemma_draw_partial_row_wrap(s: CpuView, vx: u8, vy: u8, n: u8, r: int)
    ensures
        spec_draw_display_partial(s, vx, vy, n, r, 8) == spec_draw_display_partial(
            s,
            vx,
            vy,
            n,
            r + 1,
            0,
        ),
        spec_draw_collision_partial(s, vx, vy, n, r, 8) == spec_draw_collision_partial(
            s,
            vx,
            vy,
            n,
            r + 1,
            0,
        ),
{
    let mem = s.memory;
    let i = s.index_register;
    assert forall|p: int|
        sprite_hits_before(mem, i, vx, vy, n, p, r, 8) == sprite_hits_before(
            mem,
            i,
            vx,
            vy,
            n,
            p,
            r + 1,
            0,
        ) by {
        if sprite_hits_before(mem, i, vx, vy, n, p, r, 8) {
            let (r2, c2) = choose|r2: int, c2: int|
                sprite_hit_at(mem, i, vx, vy, n, p, r2, c2) && (r2 < r || (r2 == r && c2 < 8));
            assert(sprite_hit_at(mem, i, vx, vy, n, p, r2, c2) && r2 < r + 1);
        }
        if sprite_hits_before(mem, i, vx, vy, n, p, r + 1, 0) {
            let (r2, c2) = choose|r2: int, c2: int|
                sprite_hit_at(mem, i, vx, vy, n, p, r2, c2) && (r2 < r + 1 || (r2 == r + 1 && c2
                    < 0));
            assert(sprite_hit_at(mem, i, vx, vy, n, p, r2, c2) && (r2 < r || (r2 == r && c2 < 8)));
        }
    }
    assert(spec_draw_display_partial(s, vx, vy, n, r, 8) =~= spec_draw_display_partial(
        s,
        vx,
        vy,
        n,
        r + 1,
        0,
    ));
}

/// After the last row, the loop's partial picture is the drawn display and
/// the collision bit of `Dxyn`.
pub proof fn lemma_draw_partial_complete(s: CpuView, vx: u8, vy: u8, n: u8)
    ensures
        spec_draw_display_partial(s, vx, vy, n, n as int, 0) == spec_draw_display(s, vx, vy, n),
        spec_draw_collision_partial(s, vx, vy, n, n as int, 0) == spec_draw_collision(s, vx, vy, n),
{
    let mem = s.memory;
    let i = s.index_register;
    assert forall|p: int|
        sprite_hits_before(mem, i, vx, vy, n, p, n as int, 0) == sprite_hits(mem, i, vx, vy, n, p)
        by {
        if sprite_hits_before(mem, i, vx, vy, n, p, n as int, 0) {
            let (r2, c2) = choose|r2: int, c2: int|
                sprite_hit_at(mem, i, vx, vy, n, p, r2, c2) && (r2 < n || (r2 == n && c2 < 0));
            assert(sprite_hit_at(mem, i, vx, vy, n, p, r2, c2));
        }
        if sprite_hits(mem, i, vx, vy, n, p) {
            let (r2, c2) = choose|r2: int, c2: int| sprite_hit_at(mem, i, vx, vy, n, p, r2, c2);
            assert(sprite_hit_at(mem, i, vx, vy, n, p, r2, c2) && r2 < n);
        }
    }
    assert(spec_draw_display_partial(s, vx, vy, n, n as int, 0) =~= spec_draw_display(
        s,
        vx,
        vy,
        n,
    ));
}

/// One visited cell whose sprite bit is clear changes nothing.
pub proof fn lemma_draw_partial_step_miss(s: CpuView, vx: u8, vy: u8, n: u8, r: int, c: int)
    requires
        0 <= r < n,
        0 <= c < 8,
        !sprite_bit_set(s.memory, s.index_register, r, c),
    ensures
        spec_draw_display_partial(s, vx, vy, n, r, c + 1) == spec_draw_display_partial(
            s,
            vx,
            vy,
            n,
            r,
            c,
        ),
        spec_draw_collision_partial(s, vx, vy, n, r, c + 1) == spec_draw_collision_partial(
            s,
            vx,
            vy,
            n,
            r,
            c,
        ),
{
    let mem = s.memory;
    let i = s.index_register;
    assert forall|p: int|
        sprite_hits_before(mem, i, vx, vy, n, p, r, c + 1) == sprite_hits_before(
            mem,
            i,
            vx,
            vy,
            n,
            p,
            r,
            c,
        ) by {
        if sprite_hits_before(mem, i, vx, vy, n, p, r, c + 1) {
            let (r2, c2) = choose|r2: int, c2: int|
                sprite_hit_at(mem, i, vx, vy, n, p, r2, c2) && (r2 < r || (r2 == r && c2 < c + 1));
            assert(!(r2 == r && c2 == c));
            assert(sprite_hit_at(mem, i, vx, vy, n, p, r2, c2) && (r2 < r || (r2 == r && c2 < c)));
        }
    }
    assert(spec_draw_display_partial(s, vx, vy, n, r, c + 1) =~= spec_draw_display_partial(
        s,
        vx,
        vy,
        n,
        r,
        c,
    ));
}

/// One visited cell whose sprite bit is set: its target pixel is still
/// unflipped (no earlier cell lands there), the step flips exactly that
/// pixel, and the collision bit picks up whether that pixel was on.
pub proof fn lemma_draw_partial_step_hit(s: CpuView, vx: u8, vy: u8, n: u8, r: int, c: int)
    requires
        s.wf(),
        n < 16,
        0 <= r < n,
        0 <= c < 8,
        sprite_bit_set(s.memory, s.index_register, r, c),
    ensures
        0 <= sprite_pixel_index(vx, vy, r, c) < DISPLAY_SIZE,
        spec_draw_display_partial(s, vx, vy, n, r, c)[sprite_pixel_index(vx, vy, r, c)]
            == s.display[sprite_pixel_index(vx, vy, r, c)],
        spec_draw_display_partial(s, vx, vy, n, r, c + 1) == spec_draw_display_partial(
            s,
            vx,
            vy,
            n,
            r,
            c,
        ).update(
            sprite_pixel_index(vx, vy, r, c),
            flip_pixel(s.display[sprite_pixel_index(vx, vy, r, c)]),
        ),
        spec_draw_collision_partial(s, vx, vy, n, r, c + 1) == (spec_draw_collision_partial(
            s,
            vx,
            vy,
            n,
            r,
            c,
        ) || s.display[sprite_pixel_index(vx, vy, r, c)] == 1),
{
    let mem = s.memory;
    let i = s.index_register;
    let p = sprite_pixel_index(vx, vy, r, c);
    lemma_sprite_pixel_index_bounds(vx, vy, r, c);
    assert(sprite_hit_at(mem, i, vx, vy, n, p, r, c));

    // No cell visited before (r, c) lands on p.
    assert(!sprite_hits_before(mem, i, vx, vy, n, p, r, c)) by {
        if sprite_hits_before(mem, i, vx, vy, n, p, r, c) {
            let (r2, c2) = choose|r2: int, c2: int|
                sprite_hit_at(mem, i, vx, vy, n, p, r2, c2) && (r2 < r || (r2 == r && c2 < c));
            lemma_sprite_pixel_index_injective(vx, vy, r2, c2, r, c);
        }
    }

    // Cells visited before (r, c + 1) hit p exactly when (r, c) itself does,
    // and hit any other pixel exactly when an earlier cell does.
    assert forall|p2: int| p2 != p implies sprite_hits_before(mem, i, vx, vy, n, p2, r, c + 1)
        == sprite_hits_before(mem, i, vx, vy, n, p2, r, c) by {
        if sprite_hits_before(mem, i, vx, vy, n, p2, r, c + 1) {
            let (r2, c2) = choose|r2: int, c2: int|
                sprite_hit_at(mem, i, vx, vy, n, p2, r2, c2) && (r2 < r || (r2 == r && c2 < c + 1));
            assert(!(r2 == r && c2 == c));
            assert(sprite_hit_at(mem, i, vx, vy, n, p2, r2, c2) && (r2 < r || (r2 == r && c2 < c)));
        }
    }
    assert(sprite_hits_before(mem, i, vx, vy, n, p, r, c + 1));

    assert(spec_draw_display_partial(s, vx, vy, n, r, c + 1) =~= spec_draw_display_partial(
        s,
        vx,
        vy,
        n,
        r,
        c,
    ).update(p, flip_pixel(s.display[p])));

    // Collision: the new cell contributes exactly "pixel p was on".
    if spec_draw_collision_partial(s, vx, vy, n, r, c) {
        let p2 = choose|p2: int|
            0 <= p2 < s.display.len() && sprite_hits_before(mem, i, vx, vy, n, p2, r, c)
                && s.display[p2] == 1;
        assert(sprite_hits_before(mem, i, vx, vy, n, p2, r, c + 1)) by {
            let (r2, c2) = choose|r2: int, c2: int|
                sprite_hit_at(mem, i, vx, vy, n, p2, r2, c2) && (r2 < r || (r2 == r && c2 < c));
            assert(sprite_hit_at(mem, i, vx, vy, n, p2, r2, c2) && (r2 < r || (r2 == r && c2 < c
                + 1)));
        }
        assert(spec_draw_collision_partial(s, vx, vy, n, r, c + 1));
    }
    if s.display[p] == 1 {
        assert(spec_draw_collision_partial(s, vx, vy, n, r, c + 1));
    }
    if spec_draw_collision_partial(s, vx, vy, n, r, c + 1) {
        let p2 = choose|p2: int|
            0 <= p2 < s.display.len() && sprite_hits_before(mem, i, vx, vy, n, p2, r, c + 1)
                && s.display[p2] == 1;
        if p2 != p {
            assert(sprite_hits_before(mem, i, vx, vy, n, p2, r, c));
            assert(spec_draw_collision_partial(s, vx, vy, n, r, c));
        }
    }
}

/// The loop's test of a sprite row byte (mask with a single descending bit)
/// agrees with `sprite_bit_set`'s shift-and-mask reading.
pub proof fn lemma_sprite_bit_test(b: u8, c: u8)
    by (bit_vector)
    requires
        c < 8,
    ensures
        (b & (0x80u8 >> c) != 0) == ((b >> ((7 - c) as u8)) & 1 == 1),
{
}

/// Memory after storing V0..V(k-1) at consecutive addresses from `i`.
pub open spec fn spec_store_registers(mem: Seq<u8>, gpio: Seq<u8>, i: u16, k: int) -> Seq<u8>
    decreases k,
{
    if k <= 0 {
        mem
    } else {
        spec_store_registers(mem, gpio, i, k - 1).update(
            mask_address(i + k - 1) as int,
            gpio[k - 1],
        )
    }
}

/// Registers after loading V0..V(k-1) from consecutive addresses from `i`.
pub open spec fn spec_load_registers(gpio: Seq<u8>, mem: Seq<u8>, i: u16, k: int) -> Seq<u8>
    decreases k,
{
    if k <= 0 {
        gpio
    } else {
        spec_load_registers(gpio, mem, i, k - 1).update(
            k - 1,
            mem[mask_address(i + k - 1) as int],
        )
    }
}

/// One instruction's effect on the machine state. `rb` is the byte the
/// random source produced for this step; only `Cxnn` reads it.
///
/// Operands are read from the pre-state. Where an instruction writes both
/// the flag register VF and a result register, the result is written last,
/// so an instruction that names VF as its destination leaves the result
/// there, not the flag.
pub open spec fn spec_execute(s: CpuView, instr: Instruction, rb: u8) -> Result<CpuView, Fault> {
    match instr {
        Instruction::ClearScreen => Ok(
            CpuView {
                display: Seq::new(DISPLAY_SIZE as nat, |i: int| 0u8),
                draw_flag: true,
                program_counter: pc_plus(s.program_counter, 2),
                ..s
            },
        ),
        Instruction::Return => {
            if s.stack_pointer == 0 {
                Err(Fault::StackUnderflow { pc: s.program_counter })
            } else {
                Ok(
                    CpuView {
                        stack_pointer: (s.stack_pointer - 1) as u8,
                        program_counter: mask_address(s.stack[s.stack_pointer - 1] + 2),
                        ..s
                    },
                )
            }
        },
        Instruction::Jump { nnn } => Ok(CpuView { program_counter: nnn, ..s }),
        Instruction::Call { nnn } => {
            if s.stack_pointer >= STACK_DEPTH {
                Err(Fault::StackOverflow { pc: s.program_counter })
            } else {
                Ok(
                    CpuView {
                        stack: s.stack.update(s.stack_pointer as int, s.program_counter),
                        stack_pointer: (s.stack_pointer + 1) as u8,
                        program_counter: nnn,
                        ..s
                    },
                )
            }
        },
        Instruction::SkipIfEqualImmediate { x, nn } => Ok(
            CpuView {
                program_counter: pc_plus(s.program_counter, if s.gpio[x as int] == nn { 4 } else { 2 }),
                ..s
            },
        ),
        Instruction::SkipIfNotEqualImmediate { x, nn } => Ok(
            CpuView {
                program_counter: pc_plus(s.program_counter, if s.gpio[x as int] != nn { 4 } else { 2 }),
                ..s
            },
        ),
        Instruction::SkipIfEqualRegister { x, y } => Ok(
            CpuView {
                program_counter: pc_plus(
                    s.program_counter,
                    if s.gpio[x as int] == s.gpio[y as int] { 4 } else { 2 },
                ),
                ..s
            },
        ),
        Instruction::SetImmediate { x, nn } => Ok(
            CpuView {
                gpio: s.gpio.update(x as int, nn),
                program_counter: pc_plus(s.program_counter, 2),
                ..s
            },
        ),
        Instruction::AddImmediate { x, nn } => Ok(
            CpuView {
                gpio: s.gpio.update(x as int, wrapping_add8(s.gpio[x as int], nn)),
                program_counter: pc_plus(s.program_counter, 2),
                ..s
            },
        ),
        Instruction::Assign { x, y } => Ok(
            CpuView {
                gpio: s.gpio.update(x as int, s.gpio[y as int]),
                program_counter: pc_plus(s.program_counter, 2),
                ..s
            },
        ),
        Instruction::Or { x, y } => Ok(
            CpuView {
                gpio: s.gpio.update(x as int, s.gpio[x as int] | s.gpio[y as int]),
                program_counter: pc_plus(s.program_counter, 2),
                ..s
            },
        ),
        Instruction::And { x, y } => Ok(
            CpuView {
                gpio: s.gpio.update(x as int, s.gpio[x as int] & s.gpio[y as int]),
                program_counter: pc_plus(s.program_counter, 2),
                ..s
            },
        ),
        Instruction::Xor { x, y } => Ok(
            CpuView {
                gpio: s.gpio.update(x as int, s.gpio[x as int] ^ s.gpio[y as int]),
                program_counter: pc_plus(s.program_counter, 2),
                ..s
            },
        ),
        Instruction::AddWithCarry { x, y } => Ok(
            CpuView {
                gpio: s.gpio.update(
                    15,
                    if s.gpio[x as int] + s.gpio[y as int] > 255 { 1u8 } else { 0u8 },
                ).update(x as int, wrapping_add8(s.gpio[x as int], s.gpio[y as int])),
                program_counter: pc_plus(s.program_counter, 2),
                ..s
            },
        ),
        Instruction::SubWithBorrow { x, y } => Ok(
            CpuView {
                gpio: s.gpio.update(
                    15,
                    if s.gpio[y as int] > s.gpio[x as int] { 0u8 } else { 1u8 },
                ).update(x as int, wrapping_sub8(s.gpio[x as int], s.gpio[y as int])),
                program_counter: pc_plus(s.program_counter, 2),
                ..s
            },
        ),
        Instruction::ShiftRight { x } => Ok(
            CpuView {
                gpio: s.gpio.update(15, s.gpio[x as int] & 1).update(
                    x as int,
                    s.gpio[x as int] >> 1u8,
                ),
                program_counter: pc_plus(s.program_counter, 2),
                ..s
            },
        ),
        Instruction::SubReversed { x, y } => Ok(
            CpuView {
                gpio: s.gpio.update(
                    15,
                    if s.gpio[x as int] > s.gpio[y as int] { 0u8 } else { 1u8 },
                ).update(x as int, wrapping_sub8(s.gpio[y as int], s.gpio[x as int])),
                program_counter: pc_plus(s.program_counter, 2),
                ..s
            },
        ),
        Instruction::ShiftLeft { x } => Ok(
            CpuView {
                gpio: s.gpio.update(15, s.gpio[x as int] >> 7u8).update(
                    x as int,
                    s.gpio[x as int] << 1u8,
                ),
                program_counter: pc_plus(s.program_counter, 2),
                ..s
            },
        ),
        Instruction::SkipIfNotEqualRegister { x, y } => Ok(
            CpuView {
                program_counter: pc_plus(
                    s.program_counter,
                    if s.gpio[x as int] != s.gpio[y as int] { 4 } else { 2 },
                ),
                ..s
            },
        ),
        Instruction::SetIndex { nnn } => Ok(
            CpuView {
                index_register: nnn,
                program_counter: pc_plus(s.program_counter, 2),
                ..s
            },
        ),
        Instruction::JumpPlusV0 { nnn } => Ok(
            CpuView { program_counter: mask_address(nnn + s.gpio[0]), ..s },
        ),
        Instruction::Random { x, nn } => Ok(
            CpuView {
                gpio: s.gpio.update(x as int, nn & rb),
                program_counter: pc_plus(s.program_counter, 2),
                ..s
            },
        ),
        Instruction::Draw { x, y, n } => {
            let vx = s.gpio[x as int];
            let vy = s.gpio[y as int];
            Ok(
                CpuView {
                    display: spec_draw_display(s, vx, vy, n),
                    gpio: s.gpio.update(
                        15,
                        if spec_draw_collision(s, vx, vy, n) { 1u8 } else { 0u8 },
                    ),
                    draw_flag: true,
                    program_counter: pc_plus(s.program_counter, 2),
                    ..s
                },
            )
        },
        Instruction::SkipIfKeyPressed { x } => Ok(
            CpuView {
                program_counter: pc_plus(
                    s.program_counter,
                    if s.key_inputs[key_slot(s.gpio[x as int])] != 0 { 4 } else { 2 },
                ),
                ..s
            },
        ),
        Instruction::SkipIfKeyNotPressed { x } => Ok(
            CpuView {
                program_counter: pc_plus(
                    s.program_counter,
                    if s.key_inputs[key_slot(s.gpio[x as int])] == 0 { 4 } else { 2 },
                ),
                ..s
            },
        ),
        Instruction::ReadDelayTimer { x } => Ok(
            CpuView {
                gpio: s.gpio.update(x as int, s.delay_timer),
                program_counter: pc_plus(s.program_counter, 2),
                ..s
            },
        ),
        Instruction::WaitForKey { x } => {
            match highest_pressed_below(s.key_inputs, KEY_COUNT as int) {
                Some(k) => Ok(
                    CpuView {
                        gpio: s.gpio.update(x as int, k),
                        program_counter: pc_plus(s.program_counter, 2),
                        ..s
                    },
                ),
                None => Ok(s),
            }
        },
        Instruction::SetDelayTimer { x } => Ok(
            CpuView {
                delay_timer: s.gpio[x as int],
                program_counter: pc_plus(s.program_counter, 2),
                ..s
            },
        ),
        Instruction::SetSoundTimer { x } => Ok(
            CpuView {
                sound_timer: s.gpio[x as int],
                program_counter: pc_plus(s.program_counter, 2),
                ..s
            },
        ),
        Instruction::AddIndex { x } => Ok(
            CpuView {
                gpio: s.gpio.update(
                    15,
                    if s.index_register + s.gpio[x as int] > 0xFFF { 1u8 } else { 0u8 },
                ),
                index_register: mask_address(s.index_register + s.gpio[x as int]),
                program_counter: pc_plus(s.program_counter, 2),
                ..s
            },
        ),
        Instruction::FontAddress { x } => Ok(
            CpuView {
                index_register: (s.gpio[x as int] * 5) as u16,
                program_counter: pc_plus(s.program_counter, 2),
                ..s
            },
        ),
        Instruction::StoreBcd { x } => Ok(
            CpuView {
                memory: s.memory.update(
                    s.index_register as int,
                    s.gpio[x as int] / 100,
                ).update(
                    mask_address(s.index_register + 1) as int,
                    (s.gpio[x as int] / 10) % 10,
                ).update(mask_address(s.index_register + 2) as int, s.gpio[x as int] % 10),
                program_counter: pc_plus(s.program_counter, 2),
                ..s
            },
        ),
        Instruction::StoreRegisters { x } => Ok(
            CpuView {
                memory: spec_store_registers(s.memory, s.gpio, s.index_register, x + 1),
                index_register: mask_address(s.index_register + x + 1),
                program_counter: pc_plus(s.program_counter, 2),
                ..s
            },
        ),
        Instruction::LoadRegisters { x } => Ok(
            CpuView {
                gpio: spec_load_registers(s.gpio, s.memory, s.index_register, x + 1),
                index_register: mask_address(s.index_register + x + 1),
                program_counter: pc_plus(s.program_counter, 2),
                ..s
            },
        ),
    }
}

/// Both timers count down by one per step until they reach zero.
pub open spec fn spec_tick_timers(s: CpuView) -> CpuView {
    CpuView {
        delay_timer: if s.delay_timer > 0 {
            (s.delay_timer - 1) as u8
        } else {
            0
        },
        sound_timer: if s.sound_timer > 0 {
            (s.sound_timer - 1) as u8
        } else {
            0
        },
        ..s
    }
}

/// Fetch, decode and execute the instruction at the program counter,
/// without the timer tick.
pub open spec fn spec_process(s: CpuView, rb: u8) -> Result<CpuView, Fault> {
    match spec_decode(spec_fetch(s)) {
        None => Err(Fault::UnknownOpcode { opcode: spec_fetch(s), pc: s.program_counter }),
        Some(instr) => spec_execute(s, instr, rb),
    }
}

/// One whole machine step: one instruction, then one tick of both timers.
pub open spec fn spec_step(s: CpuView, rb: u8) -> Result<CpuView, Fault> {
    match spec_process(s, rb) {
        Err(f) => Err(f),
        Ok(s2) => Ok(spec_tick_timers(s2)),
    }
}


/// A whole run: step once per byte of `rbs` (the bytes the random source
/// produces, one per step), stopping at the first fault.
pub open spec fn spec_run(s: CpuView, rbs: Seq<u8>) -> Result<CpuView, Fault>
    decreases rbs.len(),
{
    if rbs.len() == 0 {
        Ok(s)
    } else {
        match spec_step(s, rbs[0]) {
            Err(f) => Err(f),
            Ok(s2) => spec_run(s2, rbs.skip(1)),
        }
    }
}

/// The built-in fontset: sixteen glyphs of five rows each, one glyph per
/// hex digit, resident at the bottom of memory.
pub open spec fn spec_fontset() -> Seq<u8> {
    seq![
        0xF0u8, 0x90, 0x90, 0x90, 0xF0,  // 0
        0x20, 0x60, 0x20, 0x20, 0x70,  // 1
        0xF0, 0x10, 0xF0, 0x80, 0xF0,  // 2
        0xF0, 0x10, 0xF0, 0x10, 0xF0,  // 3
        0x90, 0x90, 0xF0, 0x10, 0x10,  // 4
        0xF0, 0x80, 0xF0, 0x10, 0xF0,  // 5
        0xF0, 0x80, 0xF0, 0x90, 0xF0,  // 6
        0xF0, 0x10, 0x20, 0x40, 0x40,  // 7
        0xF0, 0x90, 0xF0, 0x90, 0xF0,  // 8
        0xF0, 0x90, 0xF0, 0x10, 0xF0,  // 9
        0xF0, 0x90, 0xF0, 0x90, 0x90,  // A
        0xE0, 0x90, 0xE0, 0x90, 0xE0,  // B
        0xF0, 0x80, 0x80, 0x80, 0xF0,  // C
        0xE0, 0x90, 0x90, 0x90, 0xE0,  // D
        0xF0, 0x80, 0xF0, 0x80, 0xF0,  // E
        0xF0, 0x80, 0xF0, 0x80, 0x80,  // F
    ]
}

/// Memory at power-on: the fontset, then zeroes.
pub open spec fn spec_initial_memory() -> Seq<u8> {
    Seq::new(
        MEMORY_SIZE as nat,
        |i: int|
            if i < spec_fontset().len() {
                spec_fontset()[i]
            } else {
                0u8
            },
    )
}

/// The machine at power-on: everything zeroed but the fontset, with the
/// program counter at the program start address.
pub open spec fn spec_initial_state() -> CpuView {
    CpuView {
        key_inputs: Seq::new(KEY_COUNT as nat, |i: int| 0u8),
        display: Seq::new(DISPLAY_SIZE as nat, |i: int| 0u8),
        memory: spec_initial_memory(),
        gpio: Seq::new(REGISTER_COUNT as nat, |i: int| 0u8),
        sound_timer: 0,
        delay_timer: 0,
        index_register: 0,
        program_counter: ROM_START as u16,
        stack: Seq::new(STACK_DEPTH as nat, |i: int| 0u16),
        stack_pointer: 0,
        draw_flag: false,
    }
}

/// The machine right after a successful load: a fresh machine whose memory
/// holds the ROM image from the program start address on.
pub open spec fn spec_loaded_state(rom: Seq<u8>) -> CpuView {
    CpuView {
        memory: Seq::new(
            MEMORY_SIZE as nat,
            |i: int|
                if i < spec_fontset().len() {
                    spec_fontset()[i]
                } else if ROM_START <= i < ROM_START + rom.len() {
                    rom[i - ROM_START]
                } else {
                    0u8
                },
        ),
        ..spec_initial_state()
    }
}

/// Storing registers never changes how much memory there is.
pub proof fn lemma_store_registers_len(mem: Seq<u8>, gpio: Seq<u8>, i: u16, k: int)
    requires
        mem.len() == MEMORY_SIZE,
    ensures
        spec_store_registers(mem, gpio, i, k).len() == mem.len(),
    decreases k,
{
    if k > 0 {
        lemma_store_registers_len(mem, gpio, i, k - 1);
        assert(0 <= mask_address(i + k - 1) < MEMORY_SIZE);
    }
}

/// Loading registers never changes how many registers there are.
pub proof fn lemma_load_registers_len(gpio: Seq<u8>, mem: Seq<u8>, i: u16, k: int)
    requires
        gpio.len() == REGISTER_COUNT,
        k <= REGISTER_COUNT,
    ensures
        spec_load_registers(gpio, mem, i, k).len() == gpio.len(),
    decreases k,
{
    if k > 0 {
        lemma_load_registers_len(gpio, mem, i, k - 1);
    }
}

/// Executing any well-formed instruction on a well-formed machine yields a
/// well-formed machine: sizes are fixed, pixels stay 0 or 1, and the address
/// registers stay inside the 12-bit address space. With the verified bounds
/// on every memory access this is what keeps all indexing inside memory.
#[verifier::rlimit(60)]
pub proof fn lemma_execute_preserves_wf(s: CpuView, instr: Instruction, rb: u8)
    requires
        s.wf(),
        instr.wf(),
    ensures
        spec_execute(s, instr, rb) is Ok ==> spec_execute(s, instr, rb).unwrap().wf(),
{
    match instr {
        Instruction::StoreRegisters { x } => {
            lemma_store_registers_len(s.memory, s.gpio, s.index_register, x + 1);
        },
        Instruction::LoadRegisters { x } => {
            lemma_load_registers_len(s.gpio, s.memory, s.index_register, x + 1);
        },
        Instruction::FontAddress { x } => {
            assert(s.gpio[x as int] * 5 < 4096);
        },
        Instruction::Draw { x, y, n } => {
            let vx = s.gpio[x as int];
            let vy = s.gpio[y as int];
            let d = spec_draw_display(s, vx, vy, n);
            assert forall|p: int| 0 <= p < d.len() implies d[p] == 0 || d[p] == 1 by {
                assert(s.display[p] == 0 || s.display[p] == 1);
            }
        },
        _ => {},
    }
}

/// A timer tick changes nothing but the timers, and keeps the machine well
/// formed.
pub proof fn lemma_tick_preserves_wf(s: CpuView)
    requires
        s.wf(),
    ensures
        spec_tick_timers(s).wf(),
{
}

/// One whole step keeps the machine well formed. Together with the verified
/// absence of out-of-range indexing in the interpreter itself, this is the
/// guarantee that no run of steps after a load ever touches memory outside
/// [0, 4096).
pub proof fn lemma_step_preserves_wf(s: CpuView, rb: u8)
    requires
        s.wf(),
    ensures
        spec_step(s, rb) is Ok ==> spec_step(s, rb).unwrap().wf(),
{
    let op = spec_fetch(s);
    crate::decode::lemma_decode_wf(op);
    match spec_decode(op) {
        None => {},
        Some(instr) => {
            lemma_execute_preserves_wf(s, instr, rb);
            if spec_execute(s, instr, rb) is Ok {
                lemma_tick_preserves_wf(spec_execute(s, instr, rb).unwrap());
            }
        },
    }
}

/// Any state loaded from a ROM that fits in memory is well formed.
pub proof fn lemma_loaded_state_wf(rom: Seq<u8>)
    ensures
        spec_loaded_state(rom).wf(),
{
}

} // verus!
