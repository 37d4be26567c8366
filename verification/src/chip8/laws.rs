//! Laws of the instruction semantics, stated once over the machine's
//! small-step specification and proved for every machine state.

use vstd::prelude::*;
use crate::chip8::data::{Address, RegisterIndex};
use crate::chip8::error::VmError;
use crate::chip8::interpreter::{machine_wf, spec_step_op, MachineState};
use crate::chip8::ops::Operation;
use crate::chip8::platform::{
    blank_screen, draw_collision, draw_hit, draw_model, draw_screen, sprite_covers, PlatformModel,
};

verus! {

/// **Arithmetic flag law.** For all register byte pairs `(a, b)`: adding
/// registers yields `(a + b) mod 256` with the flag register set to 1
/// exactly when `a + b >= 256`; the two subtractions yield the wrapped
/// difference with the flag set to 1 exactly when no borrow occurs. The
/// destination must not itself be the flag register, which the flag
/// assignment overwrites.
pub proof fn lemma_arithmetic_flags(s: MachineState, x: RegisterIndex, y: RegisterIndex)
    requires
        machine_wf(s),
        x.wf(),
        y.wf(),
        x@ != 15,
    ensures
        ({
            let a = s.cpu.regs[x@];
            let b = s.cpu.regs[y@];
            &&& spec_step_op(s, Operation::AddRegister(x, y)) matches Ok(s2) && s2.cpu.regs[x@]
                == (a + b) % 256 && s2.cpu.regs[15] == (if a + b >= 256 {
                1u8
            } else {
                0u8
            })
            &&& spec_step_op(s, Operation::SubRegister(x, y)) matches Ok(s2) && s2.cpu.regs[x@]
                == (a - b + 256) % 256 && s2.cpu.regs[15] == (if a >= b {
                1u8
            } else {
                0u8
            })
            &&& spec_step_op(s, Operation::SubRegisterReversed(x, y)) matches Ok(s2)
                && s2.cpu.regs[x@] == (b - a + 256) % 256 && s2.cpu.regs[15] == (if b >= a {
                1u8
            } else {
                0u8
            })
        }),
{
    reveal(spec_step_op);
}

/// **Shift-aliasing law.** Shifting with source and destination the same
/// register gives exactly the result of shifting from a distinct source
/// register that holds the same initial value: the source is read before
/// anything is written.
pub proof fn lemma_shift_aliasing(s: MachineState, x: RegisterIndex, y: RegisterIndex)
    requires
        machine_wf(s),
        x.wf(),
        y.wf(),
        s.cpu.regs[x@] == s.cpu.regs[y@],
    ensures
        spec_step_op(s, Operation::ShiftRight(x, x)) == spec_step_op(s, Operation::ShiftRight(x, y)),
        spec_step_op(s, Operation::ShiftLeft(x, x)) == spec_step_op(s, Operation::ShiftLeft(x, y)),
{
    reveal(spec_step_op);
}

/// **Stack bound, growth.** While the call stack is below capacity, a call
/// succeeds, pushes the return address (the instruction after the call),
/// and jumps to the target; a return straight after lands back on that
/// return address with the original stack.
pub proof fn lemma_call_ret_round_trip(s: MachineState, a: Address)
    requires
        machine_wf(s),
        a.wf(),
        s.cpu.stack.len() < 16,
        s.cpu.pc + 2 <= usize::MAX,
    ensures
        spec_step_op(s, Operation::Call(a)) matches Ok(s2) && {
            &&& s2.cpu.pc == a@
            &&& s2.cpu.stack == s.cpu.stack.push((s.cpu.pc + 2) as usize)
            &&& spec_step_op(s2, Operation::Return) matches Ok(s3) && s3.cpu.pc == s.cpu.pc + 2
                && s3.cpu.stack == s.cpu.stack
        },
{
    reveal(spec_step_op);
    let s2 = spec_step_op(s, Operation::Call(a))->Ok_0;
    assert(s2.cpu.stack.drop_last() =~= s.cpu.stack);
}

/// **Stack bound, overflow.** A call with the stack already at its
/// 16-entry capacity fails with stack overflow and changes nothing; a
/// return with an empty stack fails with stack underflow.
pub proof fn lemma_stack_bounds(s: MachineState, a: Address)
    ensures
        s.cpu.stack.len() >= 16 ==> spec_step_op(s, Operation::Call(a)) == Err::<
            MachineState,
            VmError,
        >(VmError::StackOverflow),
        s.cpu.stack.len() == 0 ==> spec_step_op(s, Operation::Return) == Err::<
            MachineState,
            VmError,
        >(VmError::StackUnderflow),
{
    reveal(spec_step_op);
}

/// A sprite has at least one set bit that lands on the screen when drawn
/// with (wrapped) origin `(x0, y0)`.
pub open spec fn sprite_visible(x0: int, y0: int, rows: Seq<u8>) -> bool {
    exists|y: int, x: int|
        0 <= y < 32 && 0 <= x < 64 && #[trigger] sprite_covers(x0, y0, rows, x, y)
}

/// **Draw is an involution.** Drawing the same sprite twice at the same
/// coordinate restores every pixel.
pub proof fn lemma_draw_twice_restores(s: Seq<Seq<bool>>, x0: int, y0: int, rows: Seq<u8>)
    ensures
        draw_screen(draw_screen(s, x0, y0, rows), x0, y0, rows) == s,
{
    let s1 = draw_screen(s, x0, y0, rows);
    let s2 = draw_screen(s1, x0, y0, rows);
    assert forall|y: int| 0 <= y < s.len() implies s2[y] =~= s[y] by {
        assert(s1[y].len() == s[y].len());
        assert forall|x: int| 0 <= x < s[y].len() implies s2[y][x] == s[y][x] by {}
    }
    assert(s2 =~= s);
}

/// **First draw on a cleared screen never collides.**
pub proof fn lemma_draw_on_clear_no_collision(x0: int, y0: int, rows: Seq<u8>)
    ensures
        !draw_collision(blank_screen(), x0, y0, rows),
{
    if draw_collision(blank_screen(), x0, y0, rows) {
        let (y, x) = choose|y: int, x: int|
            0 <= y < blank_screen().len() && 0 <= x < blank_screen()[y].len()
                && #[trigger] sprite_covers(x0, y0, rows, x, y) && blank_screen()[y][x];
        assert(!blank_screen()[y][x]);
    }
}

/// **Second draw at the same spot collides**, as long as some sprite bit
/// is visible on screen at all.
pub proof fn lemma_second_draw_collides(x0: int, y0: int, rows: Seq<u8>)
    requires
        sprite_visible(x0, y0, rows),
    ensures
        draw_collision(draw_screen(blank_screen(), x0, y0, rows), x0, y0, rows),
{
    let (y, x) = choose|y: int, x: int|
        0 <= y < 32 && 0 <= x < 64 && #[trigger] sprite_covers(x0, y0, rows, x, y);
    let s1 = draw_screen(blank_screen(), x0, y0, rows);
    assert(blank_screen()[y].len() == 64);
    assert(s1[y][x]);
    assert(0 <= y < s1.len() && 0 <= x < s1[y].len() && sprite_covers(x0, y0, rows, x, y)
        && s1[y][x]);
}

/// **The draw origin wraps.** Drawing at a raw coordinate shifted by a
/// whole screen width or height is the same draw: in particular, drawing
/// at `(64, 0)` behaves identically to drawing at `(0, 0)`.
pub proof fn lemma_draw_origin_wraps(m: PlatformModel, x: int, y: int, rows: Seq<u8>)
    ensures
        draw_model(m, x + 64, y, rows) == draw_model(m, x, y, rows),
        draw_hit(m, x + 64, y, rows) == draw_hit(m, x, y, rows),
        draw_model(m, x, y + 32, rows) == draw_model(m, x, y, rows),
        draw_hit(m, x, y + 32, rows) == draw_hit(m, x, y, rows),
{
    assert((x + 64) % 64 == x % 64) by (nonlinear_arith);
    assert((y + 32) % 32 == y % 32) by (nonlinear_arith);
}

} // verus!
