//! Properties of the machine that span several operations.
use vstd::prelude::*;

use crate::model::{
    after_fetch, drawn_screen, exec_ok, fetched_op, initial_view, is_lowest_pressed,
    lowest_pressed, operands_in_range, spec_execute, spec_load, spec_tick_timers,
    well_formed, EmuView, Instruction,
};
use crate::{FONTSET, RAM_SIZE, STACK_SIZE, START_ADDR};

verus! {

/// Every instruction keeps the lengths of memory, screen, registers, stack
/// and keypad, and keeps the stack pointer within the stack.
pub proof fn law_execute_keeps_shape(s: EmuView, ins: Instruction, rnd: u8)
    requires
        well_formed(s),
        s.sp <= STACK_SIZE,
        operands_in_range(ins),
        exec_ok(s, ins),
    ensures
        well_formed(spec_execute(s, ins, rnd)),
        spec_execute(s, ins, rnd).sp <= STACK_SIZE,
{
}

/// A call followed by a return resumes at the instruction after the call,
/// with the stack pointer and everything but the saved slot as before.
pub proof fn law_call_then_return(s: EmuView, addr: u16, r1: u8, r2: u8)
    requires
        well_formed(s),
        s.sp < STACK_SIZE,
    ensures
        ({
            let called = spec_execute(s, Instruction::Call { addr }, r1);
            let back = spec_execute(called, Instruction::Return, r2);
            &&& called.pc == addr
            &&& back == (EmuView { stack: s.stack.update(s.sp as int, s.pc), ..s })
        }),
{
    let called = spec_execute(s, Instruction::Call { addr }, r1);
    let back = spec_execute(called, Instruction::Return, r2);
    assert(back =~= (EmuView { stack: s.stack.update(s.sp as int, s.pc), ..s }));
}

/// Drawing the same sprite twice at the same place restores the screen,
/// provided the coordinates are not read from VF, which the first draw sets.
pub proof fn law_draw_twice_restores_screen(s: EmuView, x: u8, y: u8, n: u8, r1: u8, r2: u8)
    requires
        well_formed(s),
        x < 15,
        y < 15,
    ensures
        spec_execute(
            spec_execute(s, Instruction::Draw { x, y, n }, r1),
            Instruction::Draw { x, y, n },
            r2,
        ).screen == s.screen,
{
    let once = spec_execute(s, Instruction::Draw { x, y, n }, r1);
    let twice = spec_execute(once, Instruction::Draw { x, y, n }, r2);
    assert(once.v[x as int] == s.v[x as int]);
    assert(once.v[y as int] == s.v[y as int]);
    assert(twice.screen =~= s.screen);
}

/// 8XY4 keeps the full sum: the new Vx plus 256 times the carry in VF is the
/// sum of the old Vx and Vy (for Vx other than VF).
pub proof fn law_add_carry(s: EmuView, x: u8, y: u8, rnd: u8)
    requires
        well_formed(s),
        x < 15,
        y < 16,
    ensures
        ({
            let t = spec_execute(s, Instruction::AddReg { x, y }, rnd);
            t.v[x as int] + 256 * t.v[15] == s.v[x as int] + s.v[y as int]
        }),
{
}

/// 8XY5 keeps the full difference: the new Vx is the old Vx minus Vy, plus
/// 256 when VF reports a borrow (VF = 0), for Vx other than VF.
pub proof fn law_sub_borrow(s: EmuView, x: u8, y: u8, rnd: u8)
    requires
        well_formed(s),
        x < 15,
        y < 16,
    ensures
        ({
            let t = spec_execute(s, Instruction::SubReg { x, y }, rnd);
            &&& t.v[15] <= 1
            &&& t.v[x as int] == s.v[x as int] - s.v[y as int] + 256 * (1 - t.v[15])
        }),
{
}

/// FX33 stores three decimal digits whose value is Vx.
pub proof fn law_bcd_digits(s: EmuView, x: u8, rnd: u8)
    requires
        well_formed(s),
        x < 16,
        exec_ok(s, Instruction::Bcd { x }),
    ensures
        ({
            let t = spec_execute(s, Instruction::Bcd { x }, rnd);
            let i = s.i as int;
            &&& t.ram[i] < 10 && t.ram[i + 1] < 10 && t.ram[i + 2] < 10
            &&& 100 * t.ram[i] + 10 * t.ram[i + 1] + t.ram[i + 2] == s.v[x as int]
        }),
{
}

/// Loading V0..=Vx right after storing them at the same I changes nothing
/// more: the registers read back are the ones written.
pub proof fn law_store_then_load(s: EmuView, x: u8, r1: u8, r2: u8)
    requires
        well_formed(s),
        x < 16,
        exec_ok(s, Instruction::StoreRegs { x }),
    ensures
        ({
            let stored = spec_execute(s, Instruction::StoreRegs { x }, r1);
            spec_execute(stored, Instruction::LoadRegs { x }, r2) == stored
        }),
{
    let stored = spec_execute(s, Instruction::StoreRegs { x }, r1);
    let loaded = spec_execute(stored, Instruction::LoadRegs { x }, r2);
    assert(loaded.v =~= stored.v);
    assert(loaded =~= stored);
}

/// After a program is loaded into a new machine, the first instruction
/// fetched is the program's first two bytes, big-endian.
pub proof fn law_load_then_fetch(data: Seq<u8>)
    requires
        2 <= data.len(),
        START_ADDR + data.len() <= RAM_SIZE,
    ensures
        fetched_op(spec_load(initial_view(), data)) == data[0] * 256 + data[1],
        after_fetch(spec_load(initial_view(), data)).pc == START_ADDR + 2,
{
    let s = spec_load(initial_view(), data);
    assert(s.ram[START_ADDR as int] == data[0]);
    assert(s.ram[START_ADDR + 1] == data[1]);
}

/// FX0A stores the held key when exactly one key is held.
pub proof fn law_wait_key_single(s: EmuView, x: u8, k: int, rnd: u8)
    requires
        well_formed(s),
        x < 16,
        0 <= k < 16,
        s.keys[k],
        forall|j: int| 0 <= j < 16 && j != k ==> !#[trigger] s.keys[j],
    ensures
        spec_execute(s, Instruction::WaitKey { x }, rnd).v[x as int] == k,
        spec_execute(s, Instruction::WaitKey { x }, rnd).pc == s.pc,
{
    assert(is_lowest_pressed(s.keys, k));
    let low = lowest_pressed(s.keys);
    assert(is_lowest_pressed(s.keys, low));
    assert(low == k) by {
        if low != k {
            assert(!s.keys[low]);
        }
    }
}

/// While the font occupies the start of memory, FX29 points I at the five
/// font rows of digit Vx.
pub proof fn law_font_char_points_at_glyph(s: EmuView, x: u8, rnd: u8)
    requires
        well_formed(s),
        x < 16,
        s.v[x as int] < 16,
        s.ram.subrange(0, FONTSET@.len() as int) == FONTSET@,
    ensures
        ({
            let d = s.v[x as int] as int;
            let t = spec_execute(s, Instruction::FontChar { x }, rnd);
            &&& t.i == 5 * d
            &&& t.ram.subrange(t.i as int, t.i + 5) == FONTSET@.subrange(5 * d, 5 * d + 5)
        }),
{
    let d = s.v[x as int] as int;
    let t = spec_execute(s, Instruction::FontChar { x }, rnd);
    assert forall|k: int| 0 <= k < 5 implies #[trigger] t.ram.subrange(t.i as int, t.i + 5)[k]
        == FONTSET@.subrange(5 * d, 5 * d + 5)[k] by {
        assert(s.ram.subrange(0, FONTSET@.len() as int)[5 * d + k] == FONTSET@[5 * d + k]);
    }
    assert(t.ram.subrange(t.i as int, t.i + 5) =~= FONTSET@.subrange(5 * d, 5 * d + 5));
}

/// A new machine holds the font at the start of memory.
pub proof fn law_new_holds_font()
    ensures
        initial_view().ram.subrange(0, FONTSET@.len() as int) == FONTSET@,
{
    assert(initial_view().ram.subrange(0, FONTSET@.len() as int) =~= FONTSET@);
}

/// Each timer counts down by one and stops at zero.
pub proof fn law_timers_count_down(s: EmuView)
    ensures
        spec_tick_timers(s).dt == if s.dt == 0 { 0 } else { s.dt - 1 },
        spec_tick_timers(s).st == if s.st == 0 { 0 } else { s.st - 1 },
        spec_tick_timers(s).dt <= s.dt,
        spec_tick_timers(s).st <= s.st,
{
}

/// A draw changes nothing but the screen and VF.
pub proof fn law_draw_touches_screen_and_vf(s: EmuView, x: u8, y: u8, n: u8, rnd: u8)
    requires
        well_formed(s),
    ensures
        ({
            let t = spec_execute(s, Instruction::Draw { x, y, n }, rnd);
            &&& t.screen == drawn_screen(s, s.v[x as int], s.v[y as int], n)
            &&& forall|k: int| 0 <= k < 15 ==> t.v[k] == s.v[k]
            &&& t.ram == s.ram && t.pc == s.pc && t.i == s.i && t.stack == s.stack
        }),
{
}

} // verus!
