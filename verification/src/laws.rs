use vstd::prelude::*;

use crate::decode::Instruction;
use crate::decode::spec_decode;
use crate::semantics::CpuView;
use crate::semantics::DISPLAY_SIZE;
use crate::semantics::Fault;
use crate::semantics::flip_pixel;
use crate::semantics::lemma_loaded_state_wf;
use crate::semantics::lemma_step_preserves_wf;
use crate::semantics::pc_plus;
use crate::semantics::spec_draw_collision;
use crate::semantics::spec_draw_display;
use crate::semantics::spec_execute;
use crate::semantics::spec_fetch;
use crate::semantics::spec_loaded_state;
use crate::semantics::spec_run;
use crate::semantics::spec_step;
use crate::semantics::sprite_hits;

verus! {

/// The machine after one `Dxyn` draw (the random byte is irrelevant to a
/// draw, so any fixed byte names the transition).
pub open spec fn draw_once(s: CpuView, x: u8, y: u8, n: u8) -> CpuView {
    spec_execute(s, Instruction::Draw { x, y, n }, 0).unwrap()
}

/// Stepping preserves well-formedness along any whole run: from a well-
/// formed state, however many steps succeed, every intermediate and final
/// state keeps its 4096-byte memory, its 12-bit address registers and its
/// 0-or-1 pixels. The interpreter's memory accesses are verified in-bounds
/// from exactly this shape.
pub proof fn lemma_run_preserves_wf(s: CpuView, rbs: Seq<u8>)
    requires
        s.wf(),
    ensures
        spec_run(s, rbs) is Ok ==> spec_run(s, rbs).unwrap().wf(),
    decreases rbs.len(),
{
    if rbs.len() > 0 {
        lemma_step_preserves_wf(s, rbs[0]);
        match spec_step(s, rbs[0]) {
            Err(_) => {},
            Ok(s2) => {
                lemma_run_preserves_wf(s2, rbs.skip(1));
            },
        }
    }
}

/// Loading any ROM that fits below the 4096-byte ceiling, then stepping any
/// number of times, never leaves the memory bounds: every reachable state
/// is well formed, so every address the interpreter touches lies in
/// [0, 4096).
pub proof fn lemma_load_then_run_in_bounds(rom: Seq<u8>, rbs: Seq<u8>)
    requires
        rom.len() <= 3584,
    ensures
        spec_run(spec_loaded_state(rom), rbs) is Ok ==> spec_run(
            spec_loaded_state(rom),
            rbs,
        ).unwrap().wf(),
{
    lemma_loaded_state_wf(rom);
    lemma_run_preserves_wf(spec_loaded_state(rom), rbs);
}

/// The clear-screen instruction: whenever the word at the program counter
/// is 0x00E0, the step succeeds, every pixel of the resulting display is
/// zero, and the draw flag is set.
pub proof fn lemma_clear_screen(s: CpuView, rb: u8)
    requires
        s.wf(),
        spec_fetch(s) == 0x00E0,
    ensures
        spec_step(s, rb) is Ok,
        spec_step(s, rb).unwrap().display.len() == DISPLAY_SIZE,
        forall|p: int| 0 <= p < DISPLAY_SIZE ==> spec_step(s, rb).unwrap().display[p] == 0,
        spec_step(s, rb).unwrap().draw_flag,
{
    assert(spec_decode(0x00E0) == Some(Instruction::ClearScreen));
}

/// Drawing the same sprite at the same coordinates twice restores the
/// display exactly, and the second draw reports a collision (VF == 1)
/// precisely when the first draw turned some pixel on — that is, when some
/// set sprite bit landed on a pixel that was off. (The registers x and y
/// must not be VF itself, which the first draw overwrites with its
/// collision bit.)
pub proof fn lemma_sprite_xor_idempotent(s: CpuView, x: u8, y: u8, n: u8)
    requires
        s.wf(),
        x < 15,
        y < 15,
        n < 16,
    ensures
        draw_once(draw_once(s, x, y, n), x, y, n).display == s.display,
        draw_once(draw_once(s, x, y, n), x, y, n).gpio[15] == 1 <==> (exists|p: int|
            0 <= p < DISPLAY_SIZE && sprite_hits(
                s.memory,
                s.index_register,
                s.gpio[x as int],
                s.gpio[y as int],
                n,
                p,
            ) && s.display[p] == 0),
{
    let vx = s.gpio[x as int];
    let vy = s.gpio[y as int];
    let s1 = draw_once(s, x, y, n);
    let s2 = draw_once(s1, x, y, n);

    assert(s1.memory == s.memory);
    assert(s1.index_register == s.index_register);
    assert(s1.gpio[x as int] == vx);
    assert(s1.gpio[y as int] == vy);
    assert(s1.display == spec_draw_display(s, vx, vy, n));
    assert(s2.display == spec_draw_display(s1, vx, vy, n));

    // The same cells hit the same pixels in both draws, so the second XOR
    // undoes the first.
    assert forall|p: int| 0 <= p < DISPLAY_SIZE implies s2.display[p] == s.display[p] by {
        assert(s.display[p] == 0 || s.display[p] == 1);
        if sprite_hits(s.memory, s.index_register, vx, vy, n, p) {
            assert(s1.display[p] == flip_pixel(s.display[p]));
            assert(s2.display[p] == flip_pixel(flip_pixel(s.display[p])));
        }
    }
    assert(s2.display =~= s.display);

    // The second draw collides exactly on the pixels the first draw lit.
    assert(s2.gpio[15] == 1 <==> spec_draw_collision(s1, vx, vy, n));
    if spec_draw_collision(s1, vx, vy, n) {
        let p = choose|p: int|
            0 <= p < s1.display.len() && sprite_hits(s1.memory, s1.index_register, vx, vy, n, p)
                && s1.display[p] == 1;
        assert(s1.display[p] == flip_pixel(s.display[p]));
        assert(s.display[p] == 0 || s.display[p] == 1);
        assert(sprite_hits(s.memory, s.index_register, vx, vy, n, p) && s.display[p] == 0);
    }
    if exists|p: int|
        0 <= p < DISPLAY_SIZE && sprite_hits(s.memory, s.index_register, vx, vy, n, p)
            && s.display[p] == 0 {
        let p = choose|p: int|
            0 <= p < DISPLAY_SIZE && sprite_hits(s.memory, s.index_register, vx, vy, n, p)
                && s.display[p] == 0;
        assert(s1.display[p] == flip_pixel(s.display[p]));
        assert(spec_draw_collision(s1, vx, vy, n));
    }
}

/// An unrecognized opcode word is a fault, never a silent skip: whenever
/// the fetched word decodes to nothing, every step from that state reports
/// the unknown-opcode fault with that word and that program counter.
pub proof fn lemma_unknown_opcode_faults(s: CpuView, rb: u8)
    requires
        spec_decode(spec_fetch(s)) is None,
    ensures
        spec_step(s, rb) == Err::<CpuView, Fault>(
            Fault::UnknownOpcode { opcode: spec_fetch(s), pc: s.program_counter },
        ),
{
}

/// A call and its return round-trip: from a state about to run `2nnn` with
/// room on the stack, whose target holds `00EE`, two steps bring the
/// program counter to the call site plus two and the stack pointer back to
/// its pre-call value.
pub proof fn lemma_stack_round_trip(s: CpuView, rb1: u8, rb2: u8)
    requires
        s.wf(),
        spec_decode(spec_fetch(s)) is Some,
        spec_decode(spec_fetch(s)).unwrap() is Call,
        s.stack_pointer < 16,
        spec_fetch(spec_step(s, rb1).unwrap()) == 0x00EE,
    ensures
        spec_step(s, rb1) is Ok,
        spec_step(spec_step(s, rb1).unwrap(), rb2) is Ok,
        spec_step(spec_step(s, rb1).unwrap(), rb2).unwrap().program_counter == pc_plus(
            s.program_counter,
            2,
        ),
        spec_step(spec_step(s, rb1).unwrap(), rb2).unwrap().stack_pointer == s.stack_pointer,
{
    let s1 = spec_step(s, rb1).unwrap();
    assert(s1.stack[s.stack_pointer as int] == s.program_counter);
    assert(spec_decode(0x00EE) == Some(Instruction::Return));
}

} // verus!
