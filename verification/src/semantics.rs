//! What each instruction does, stated on the state before and after it
//! without going through the definitions of the model.
use vstd::prelude::*;

use crate::model::{
    after_fetch, digit1, digit2, digit3, digit4, exec_ok, operand_nn, operand_nnn, fetch_ok, fetched_op, initial_view, operands_in_range, spec_decode,
    spec_execute, spec_keypress, spec_load, spec_tick_timers, well_formed, EmuView, Instruction,
};
use crate::sprite::lemma_pixel_of;
use vstd::arithmetic::div_mod::{
    lemma_fundamental_div_mod_converse_div, lemma_fundamental_div_mod_converse_mod,
};
use crate::{FONTSET, FONTSET_SIZE, NUM_KEYS, NUM_REGS, RAM_SIZE, SCREEN_SIZE, START_ADDR};

verus! {

/// `t` differs from `s` at most in the registers.
pub open spec fn only_registers_change(s: EmuView, t: EmuView) -> bool {
    &&& t.pc == s.pc
    &&& t.ram == s.ram
    &&& t.screen == s.screen
    &&& t.i == s.i
    &&& t.sp == s.sp
    &&& t.stack == s.stack
    &&& t.keys == s.keys
    &&& t.dt == s.dt
    &&& t.st == s.st
}

/// Registers other than `a` and `b` keep their values.
pub open spec fn other_registers_kept(s: EmuView, t: EmuView, a: int, b: int) -> bool {
    &&& t.v.len() == NUM_REGS
    &&& forall|k: int| 0 <= k < NUM_REGS && k != a && k != b ==> #[trigger] t.v[k] == s.v[k]
}

/// `t` differs from `s` at most in the program counter.
pub open spec fn only_pc_changes(s: EmuView, t: EmuView) -> bool {
    t == (EmuView { pc: t.pc, ..s })
}

// ---------------------------------------------------------------------------
// Registers

/// 6XNN puts NN in Vx and nothing else changes.
#[verifier::spinoff_prover]
#[verifier::rlimit(40)]
pub proof fn law_set_imm(s: EmuView, x: u8, nn: u8, rnd: u8)
    requires
        well_formed(s),
        x < 16,
    ensures
        ({
            let t = spec_execute(s, Instruction::SetImm { x, nn }, rnd);
            &&& t.v[x as int] == nn
            &&& other_registers_kept(s, t, x as int, x as int)
            &&& only_registers_change(s, t)
        }),
{
}

/// 7XNN adds NN to Vx modulo 256 and leaves every other register, VF
/// included, alone.
#[verifier::spinoff_prover]
#[verifier::rlimit(40)]
pub proof fn law_add_imm(s: EmuView, x: u8, nn: u8, rnd: u8)
    requires
        well_formed(s),
        x < 16,
    ensures
        ({
            let t = spec_execute(s, Instruction::AddImm { x, nn }, rnd);
            &&& t.v[x as int] == (s.v[x as int] + nn) % 256
            &&& other_registers_kept(s, t, x as int, x as int)
            &&& only_registers_change(s, t)
        }),
{
}

/// 8XY0 to 8XY3 copy, or, and, xor Vy into Vx and leave the other
/// registers alone.
#[verifier::spinoff_prover]
#[verifier::rlimit(40)]
pub proof fn law_moves_and_bitwise(s: EmuView, x: u8, y: u8, rnd: u8)
    requires
        well_formed(s),
        x < 16,
        y < 16,
    ensures
        ({
            let t = spec_execute(s, Instruction::SetReg { x, y }, rnd);
            &&& t.v[x as int] == s.v[y as int]
            &&& other_registers_kept(s, t, x as int, x as int)
            &&& only_registers_change(s, t)
        }),
        ({
            let t = spec_execute(s, Instruction::Or { x, y }, rnd);
            &&& t.v[x as int] == s.v[x as int] | s.v[y as int]
            &&& other_registers_kept(s, t, x as int, x as int)
            &&& only_registers_change(s, t)
        }),
        ({
            let t = spec_execute(s, Instruction::And { x, y }, rnd);
            &&& t.v[x as int] == s.v[x as int] & s.v[y as int]
            &&& other_registers_kept(s, t, x as int, x as int)
            &&& only_registers_change(s, t)
        }),
        ({
            let t = spec_execute(s, Instruction::Xor { x, y }, rnd);
            &&& t.v[x as int] == s.v[x as int] ^ s.v[y as int]
            &&& other_registers_kept(s, t, x as int, x as int)
            &&& only_registers_change(s, t)
        }),
{
}

/// 8XY4 keeps the full sum in Vx and VF: Vx + 256 * VF is the old Vx + Vy,
/// VF is 0 or 1, and only Vx and VF change (for Vx other than VF).
#[verifier::spinoff_prover]
#[verifier::rlimit(40)]
pub proof fn law_add_reg(s: EmuView, x: u8, y: u8, rnd: u8)
    requires
        well_formed(s),
        x < 15,
        y < 16,
    ensures
        ({
            let t = spec_execute(s, Instruction::AddReg { x, y }, rnd);
            &&& t.v[15] <= 1
            &&& t.v[x as int] + 256 * t.v[15] == s.v[x as int] + s.v[y as int]
            &&& other_registers_kept(s, t, x as int, 15)
            &&& only_registers_change(s, t)
        }),
{
}

/// 8XY5 and 8XY7 keep the full difference: the new Vx plus 256 times the
/// borrow (1 - VF) is the difference, VF is 0 or 1, and only Vx and VF
/// change (for Vx other than VF).
#[verifier::spinoff_prover]
#[verifier::rlimit(40)]
pub proof fn law_sub_regs(s: EmuView, x: u8, y: u8, rnd: u8)
    requires
        well_formed(s),
        x < 15,
        y < 16,
    ensures
        ({
            let t = spec_execute(s, Instruction::SubReg { x, y }, rnd);
            &&& t.v[15] <= 1
            &&& t.v[x as int] - 256 * (1 - t.v[15]) == s.v[x as int] - s.v[y as int]
            &&& other_registers_kept(s, t, x as int, 15)
            &&& only_registers_change(s, t)
        }),
        ({
            let t = spec_execute(s, Instruction::SubRev { x, y }, rnd);
            &&& t.v[15] <= 1
            &&& t.v[x as int] - 256 * (1 - t.v[15]) == s.v[y as int] - s.v[x as int]
            &&& other_registers_kept(s, t, x as int, 15)
            &&& only_registers_change(s, t)
        }),
{
}

/// 8XY6 keeps the full value: twice the new Vx plus VF is the old Vx, with
/// VF 0 or 1 (the bit shifted out); 8XYE likewise: the new Vx plus 256 * VF
/// is twice the old Vx. Only Vx and VF change (for Vx other than VF).
#[verifier::spinoff_prover]
#[verifier::rlimit(40)]
pub proof fn law_shifts(s: EmuView, x: u8, rnd: u8)
    requires
        well_formed(s),
        x < 15,
    ensures
        ({
            let t = spec_execute(s, Instruction::ShiftRight { x }, rnd);
            &&& t.v[15] <= 1
            &&& 2 * t.v[x as int] + t.v[15] == s.v[x as int]
            &&& other_registers_kept(s, t, x as int, 15)
            &&& only_registers_change(s, t)
        }),
        ({
            let t = spec_execute(s, Instruction::ShiftLeft { x }, rnd);
            &&& t.v[15] <= 1
            &&& t.v[x as int] + 256 * t.v[15] == 2 * s.v[x as int]
            &&& other_registers_kept(s, t, x as int, 15)
            &&& only_registers_change(s, t)
        }),
{
}

/// CXNN stores the random byte masked by NN: no bit outside NN is set.
#[verifier::spinoff_prover]
#[verifier::rlimit(40)]
pub proof fn law_random(s: EmuView, x: u8, nn: u8, rnd: u8)
    requires
        well_formed(s),
        x < 16,
    ensures
        ({
            let t = spec_execute(s, Instruction::Random { x, nn }, rnd);
            &&& t.v[x as int] == rnd & nn
            &&& t.v[x as int] & nn == t.v[x as int]
            &&& t.v[x as int] <= nn
            &&& other_registers_kept(s, t, x as int, x as int)
            &&& only_registers_change(s, t)
        }),
{
    let v = rnd & nn;
    assert((rnd & nn) & nn == rnd & nn) by (bit_vector);
    assert(rnd & nn <= nn) by (bit_vector);
}

// ---------------------------------------------------------------------------
// Timers

/// FX07 reads the delay timer into Vx, FX15 and FX18 set the delay and sound
/// timers from Vx, and a value set with FX15 reads back with FX07.
#[verifier::spinoff_prover]
#[verifier::rlimit(40)]
pub proof fn law_timer_registers(s: EmuView, x: u8, y: u8, r1: u8, r2: u8)
    requires
        well_formed(s),
        x < 16,
        y < 16,
    ensures
        ({
            let t = spec_execute(s, Instruction::GetDelay { x }, r1);
            &&& t.v[x as int] == s.dt
            &&& other_registers_kept(s, t, x as int, x as int)
            &&& only_registers_change(s, t)
        }),
        ({
            let t = spec_execute(s, Instruction::SetDelay { x }, r1);
            &&& t.dt == s.v[x as int]
            &&& t == (EmuView { dt: t.dt, ..s })
        }),
        ({
            let t = spec_execute(s, Instruction::SetSound { x }, r1);
            &&& t.st == s.v[x as int]
            &&& t == (EmuView { st: t.st, ..s })
        }),
        spec_execute(
            spec_execute(s, Instruction::SetDelay { x }, r1),
            Instruction::GetDelay { x: y },
            r2,
        ).v[y as int] == s.v[x as int],
{
    let t = spec_execute(s, Instruction::SetDelay { x }, r1);
    assert(t == (EmuView { dt: t.dt, ..s }));
    let u = spec_execute(s, Instruction::SetSound { x }, r1);
    assert(u == (EmuView { st: u.st, ..s }));
}

// ---------------------------------------------------------------------------
// Control flow

/// 1NNN jumps to NNN; BNNN jumps to V0 + NNN; 00E0 leaves everything but the
/// screen alone and clears it; 0000 changes nothing.
#[verifier::spinoff_prover]
#[verifier::rlimit(40)]
pub proof fn law_jumps(s: EmuView, addr: u16, rnd: u8)
    requires
        well_formed(s),
        addr < 4096,
    ensures
        ({
            let t = spec_execute(s, Instruction::Jump { addr }, rnd);
            t.pc == addr && only_pc_changes(s, t)
        }),
        ({
            let t = spec_execute(s, Instruction::JumpOffset { addr }, rnd);
            t.pc == s.v[0] + addr && only_pc_changes(s, t)
        }),
        spec_execute(s, Instruction::Nop, rnd) == s,
        ({
            let t = spec_execute(s, Instruction::ClearScreen, rnd);
            &&& t.screen.len() == SCREEN_SIZE
            &&& forall|p: int| 0 <= p < SCREEN_SIZE ==> !#[trigger] t.screen[p]
            &&& t == (EmuView { screen: t.screen, ..s })
        }),
{
    let t = spec_execute(s, Instruction::Jump { addr }, rnd);
    assert(t =~= (EmuView { pc: t.pc, ..s }));
    let u = spec_execute(s, Instruction::JumpOffset { addr }, rnd);
    assert(u =~= (EmuView { pc: u.pc, ..s }));
}

/// 2NNN saves the address of the next instruction on top of the stack and
/// jumps to NNN; 00EE takes the top address off the stack and jumps to it.
#[verifier::spinoff_prover]
#[verifier::rlimit(40)]
pub proof fn law_call_and_return(s: EmuView, addr: u16, rnd: u8)
    requires
        well_formed(s),
        addr < 4096,
    ensures
        s.sp < 16 ==> ({
            let t = spec_execute(s, Instruction::Call { addr }, rnd);
            &&& t.pc == addr
            &&& t.sp == s.sp + 1
            &&& t.stack[s.sp as int] == s.pc
            &&& forall|k: int| 0 <= k < 16 && k != s.sp ==> #[trigger] t.stack[k] == s.stack[k]
            &&& t.v == s.v && t.ram == s.ram && t.screen == s.screen && t.i == s.i
        }),
        1 <= s.sp <= 16 ==> ({
            let t = spec_execute(s, Instruction::Return, rnd);
            &&& t.pc == s.stack[s.sp - 1]
            &&& t.sp == s.sp - 1
            &&& t.stack == s.stack && t.v == s.v && t.ram == s.ram && t.screen == s.screen
        }),
{
}

/// Each conditional skip moves `pc` on by 2 exactly when its condition holds
/// and leaves everything else alone: 3XNN when Vx == NN, 4XNN when Vx != NN,
/// 5XY0 when Vx == Vy, 9XY0 when Vx != Vy, EX9E when the key numbered by the
/// value of Vx is held, EXA1 when it is not.
#[verifier::spinoff_prover]
#[verifier::rlimit(40)]
pub proof fn law_skips(s: EmuView, x: u8, y: u8, nn: u8, rnd: u8)
    requires
        well_formed(s),
        x < 16,
        y < 16,
        s.pc + 2 <= u16::MAX,
    ensures
        ({
            let t = spec_execute(s, Instruction::SkipEqImm { x, nn }, rnd);
            &&& t.pc == if s.v[x as int] == nn { s.pc + 2 } else { s.pc as int }
            &&& only_pc_changes(s, t)
        }),
        ({
            let t = spec_execute(s, Instruction::SkipNeImm { x, nn }, rnd);
            &&& t.pc == if s.v[x as int] != nn { s.pc + 2 } else { s.pc as int }
            &&& only_pc_changes(s, t)
        }),
        ({
            let t = spec_execute(s, Instruction::SkipEqReg { x, y }, rnd);
            &&& t.pc == if s.v[x as int] == s.v[y as int] { s.pc + 2 } else { s.pc as int }
            &&& only_pc_changes(s, t)
        }),
        ({
            let t = spec_execute(s, Instruction::SkipNeReg { x, y }, rnd);
            &&& t.pc == if s.v[x as int] != s.v[y as int] { s.pc + 2 } else { s.pc as int }
            &&& only_pc_changes(s, t)
        }),
        s.v[x as int] < 16 ==> ({
            let key = s.v[x as int] as int;
            let t = spec_execute(s, Instruction::SkipKey { x }, rnd);
            &&& t.pc == if s.keys[key] { s.pc + 2 } else { s.pc as int }
            &&& only_pc_changes(s, t)
        }),
        s.v[x as int] < 16 ==> ({
            let key = s.v[x as int] as int;
            let t = spec_execute(s, Instruction::SkipNoKey { x }, rnd);
            &&& t.pc == if !s.keys[key] { s.pc + 2 } else { s.pc as int }
            &&& only_pc_changes(s, t)
        }),
{
}

// ---------------------------------------------------------------------------
// Index register and keypad

/// ANNN sets I to NNN; FX1E adds Vx to I modulo 65536; FX29 sets I to five
/// times Vx. Nothing else changes.
#[verifier::spinoff_prover]
#[verifier::rlimit(40)]
pub proof fn law_index(s: EmuView, x: u8, addr: u16, rnd: u8)
    requires
        well_formed(s),
        x < 16,
    ensures
        ({
            let t = spec_execute(s, Instruction::SetIndex { addr }, rnd);
            t.i == addr && t == (EmuView { i: t.i, ..s })
        }),
        ({
            let t = spec_execute(s, Instruction::AddIndex { x }, rnd);
            t.i == (s.i + s.v[x as int]) % 65536 && t == (EmuView { i: t.i, ..s })
        }),
        ({
            let t = spec_execute(s, Instruction::FontChar { x }, rnd);
            t.i == 5 * s.v[x as int] && t == (EmuView { i: t.i, ..s })
        }),
{
    let a = spec_execute(s, Instruction::SetIndex { addr }, rnd);
    assert(a == (EmuView { i: a.i, ..s }));
    let b = spec_execute(s, Instruction::AddIndex { x }, rnd);
    assert(b == (EmuView { i: b.i, ..s }));
    let c = spec_execute(s, Instruction::FontChar { x }, rnd);
    assert(c == (EmuView { i: c.i, ..s }));
}

/// FX0A with some key held puts a held key in Vx such that no lower key is
/// held and leaves `pc` alone; with no key held it moves `pc` back by 2 so
/// that it runs again, and nothing else changes.
#[verifier::spinoff_prover]
#[verifier::rlimit(40)]
pub proof fn law_wait_key(s: EmuView, x: u8, rnd: u8)
    requires
        well_formed(s),
        x < 16,
        exec_ok(s, Instruction::WaitKey { x }),
    ensures
        ({
            let t = spec_execute(s, Instruction::WaitKey { x }, rnd);
            &&& (exists|k: int| 0 <= k < 16 && #[trigger] s.keys[k]) ==> {
                &&& t.v[x as int] < 16
                &&& s.keys[t.v[x as int] as int]
                &&& forall|j: int| 0 <= j < t.v[x as int] ==> !#[trigger] s.keys[j]
                &&& other_registers_kept(s, t, x as int, x as int)
                &&& only_registers_change(s, t)
            }
            &&& (forall|k: int| 0 <= k < 16 ==> !#[trigger] s.keys[k]) ==> {
                &&& t.pc == s.pc - 2
                &&& only_pc_changes(s, t)
            }
        }),
{
    let t = spec_execute(s, Instruction::WaitKey { x }, rnd);
    if exists|k: int| 0 <= k < 16 && #[trigger] s.keys[k] {
        crate::model::lemma_lowest_pressed_exists(s.keys, 0);
    }
    if forall|k: int| 0 <= k < 16 ==> !#[trigger] s.keys[k] {
        assert(t =~= (EmuView { pc: t.pc, ..s }));
    }
}

// ---------------------------------------------------------------------------
// Drawing

/// DXYN sets VF to 1 exactly when the draw turned some lit pixel off, and to
/// 0 otherwise; it changes nothing but the screen and VF.
#[verifier::spinoff_prover]
#[verifier::rlimit(40)]
pub proof fn law_draw_collision(s: EmuView, x: u8, y: u8, n: u8, rnd: u8)
    requires
        well_formed(s),
        x < 16,
        y < 16,
        n < 16,
    ensures
        ({
            let t = spec_execute(s, Instruction::Draw { x, y, n }, rnd);
            &&& t.v[15] <= 1
            &&& (t.v[15] == 1 <==> exists|p: int|
                0 <= p < SCREEN_SIZE && s.screen[p] && !#[trigger] t.screen[p])
            &&& other_registers_kept(s, t, 15, 15)
            &&& t.ram == s.ram && t.pc == s.pc && t.i == s.i && t.sp == s.sp
            &&& t.stack == s.stack && t.keys == s.keys && t.dt == s.dt && t.st == s.st
        }),
{
    let t = spec_execute(s, Instruction::Draw { x, y, n }, rnd);
    if t.v[15] == 1 {
        let w = choose|p: int|
            0 <= p < s.screen.len() && #[trigger] crate::model::draw_hits(
                s.ram,
                s.i,
                s.v[x as int],
                s.v[y as int],
                n,
                p,
            ) && s.screen[p];
        assert(s.screen[w] && !t.screen[w]);
    }
    if exists|p: int| 0 <= p < SCREEN_SIZE && s.screen[p] && !#[trigger] t.screen[p] {
        let w = choose|p: int| 0 <= p < SCREEN_SIZE && s.screen[p] && !#[trigger] t.screen[p];
        assert(crate::model::draw_hits(s.ram, s.i, s.v[x as int], s.v[y as int], n, w));
    }
}

/// The index in the row-by-row frame buffer of the pixel at column `c`,
/// row `r` of a sprite whose top left corner is at (`xc`, `yc`), wrapping
/// around both edges of the 64 by 32 screen.
pub open spec fn screen_pos(xc: u8, yc: u8, r: int, c: int) -> int {
    (xc + c) % 64 + 64 * ((yc + r) % 32)
}

/// Whether the sprite byte `b` has its bit for column `c` set, under the mask
/// 0x80 >> c.
pub open spec fn mask_set(b: u8, c: int) -> bool {
    (b & (0x80u8 >> (c as u8))) != 0u8
}

/// DXYN flips exactly the pixels under the set bits of the sprite: row `r`
/// (below N) of the sprite is the byte at I + r, and its bit for column `c`
/// (below 8) lands on `screen_pos(Vx, Vy, r, c)`. Every other pixel keeps its
/// value.
#[verifier::spinoff_prover]
#[verifier::rlimit(40)]
pub proof fn law_draw_pixels(s: EmuView, x: u8, y: u8, n: u8, rnd: u8)
    requires
        well_formed(s),
        x < 16,
        y < 16,
        n < 16,
        n == 0 || s.i + n <= 4096,
    ensures
        ({
            let t = spec_execute(s, Instruction::Draw { x, y, n }, rnd);
            let xc = s.v[x as int];
            let yc = s.v[y as int];
            &&& t.screen.len() == SCREEN_SIZE
            &&& forall|r: int, c: int|
                0 <= r < n && 0 <= c < 8 ==> {
                    let p = #[trigger] screen_pos(xc, yc, r, c);
                    &&& 0 <= p < SCREEN_SIZE
                    &&& t.screen[p] == (s.screen[p] != mask_set(s.ram[s.i + r], c))
                }
            &&& forall|p: int|
                0 <= p < SCREEN_SIZE && #[trigger] t.screen[p] != s.screen[p] ==> exists|
                    r: int,
                    c: int,
                |
                    0 <= r < n && 0 <= c < 8 && p == #[trigger] screen_pos(xc, yc, r, c)
                        && mask_set(s.ram[s.i + r], c)
        }),
{
    let t = spec_execute(s, Instruction::Draw { x, y, n }, rnd);
    let xc = s.v[x as int];
    let yc = s.v[y as int];
    assert forall|r: int, c: int| 0 <= r < n && 0 <= c < 8 implies {
        let p = #[trigger] screen_pos(xc, yc, r, c);
        &&& 0 <= p < SCREEN_SIZE
        &&& t.screen[p] == (s.screen[p] != mask_set(s.ram[s.i + r], c))
    } by {
        lemma_pixel_of(xc, yc, r, c);
        lemma_mask_bit(s.ram[s.i + r], c as u8);
    }
    assert forall|p: int| 0 <= p < SCREEN_SIZE && #[trigger] t.screen[p] != s.screen[p] implies exists|
        r: int,
        c: int,
    |
        0 <= r < n && 0 <= c < 8 && p == #[trigger] screen_pos(xc, yc, r, c) && mask_set(
            s.ram[s.i + r],
            c,
        ) by {
        let r = crate::model::sprite_row_at(yc, p);
        let c = crate::model::sprite_col_at(xc, p);
        lemma_pixel_of(xc, yc, r, c);
        lemma_mask_bit(s.ram[s.i + r], c as u8);
        assert(p == screen_pos(xc, yc, r, c));
    }
}

/// The mask 0x80 >> c picks sprite bit `c`, counted from the left.
proof fn lemma_mask_bit(b: u8, c: u8)
    requires
        c < 8,
    ensures
        ((b & (0x80u8 >> c)) != 0u8) == crate::model::sprite_bit(b, c as int),
{
    assert(((b & (0x80u8 >> c)) != 0u8) == (((b >> ((7u8 - c) as u8)) & 1u8) == 1u8))
        by (bit_vector)
        requires
            c < 8,
    ;
    assert((7 - c as int) as u8 == (7u8 - c) as u8);
}

// ---------------------------------------------------------------------------
// Opcodes

/// The opcode of an instruction, as a number: the instruction's leading
/// digit in the top four bits, then X, Y and the last digit, or NNN, or NN.
pub open spec fn opcode_of(ins: Instruction) -> int {
    match ins {
        Instruction::Nop => 0x0000,
        Instruction::ClearScreen => 0x00E0,
        Instruction::Return => 0x00EE,
        Instruction::Jump { addr } => 0x1000 + addr,
        Instruction::Call { addr } => 0x2000 + addr,
        Instruction::SkipEqImm { x, nn } => 0x3000 + 0x100 * x + nn,
        Instruction::SkipNeImm { x, nn } => 0x4000 + 0x100 * x + nn,
        Instruction::SkipEqReg { x, y } => 0x5000 + 0x100 * x + 0x10 * y,
        Instruction::SetImm { x, nn } => 0x6000 + 0x100 * x + nn,
        Instruction::AddImm { x, nn } => 0x7000 + 0x100 * x + nn,
        Instruction::SetReg { x, y } => 0x8000 + 0x100 * x + 0x10 * y,
        Instruction::Or { x, y } => 0x8001 + 0x100 * x + 0x10 * y,
        Instruction::And { x, y } => 0x8002 + 0x100 * x + 0x10 * y,
        Instruction::Xor { x, y } => 0x8003 + 0x100 * x + 0x10 * y,
        Instruction::AddReg { x, y } => 0x8004 + 0x100 * x + 0x10 * y,
        Instruction::SubReg { x, y } => 0x8005 + 0x100 * x + 0x10 * y,
        Instruction::ShiftRight { x } => 0x8006 + 0x100 * x,
        Instruction::SubRev { x, y } => 0x8007 + 0x100 * x + 0x10 * y,
        Instruction::ShiftLeft { x } => 0x800E + 0x100 * x,
        Instruction::SkipNeReg { x, y } => 0x9000 + 0x100 * x + 0x10 * y,
        Instruction::SetIndex { addr } => 0xA000 + addr,
        Instruction::JumpOffset { addr } => 0xB000 + addr,
        Instruction::Random { x, nn } => 0xC000 + 0x100 * x + nn,
        Instruction::Draw { x, y, n } => 0xD000 + 0x100 * x + 0x10 * y + n,
        Instruction::SkipKey { x } => 0xE09E + 0x100 * x,
        Instruction::SkipNoKey { x } => 0xE0A1 + 0x100 * x,
        Instruction::GetDelay { x } => 0xF007 + 0x100 * x,
        Instruction::WaitKey { x } => 0xF00A + 0x100 * x,
        Instruction::SetDelay { x } => 0xF015 + 0x100 * x,
        Instruction::SetSound { x } => 0xF018 + 0x100 * x,
        Instruction::AddIndex { x } => 0xF01E + 0x100 * x,
        Instruction::FontChar { x } => 0xF029 + 0x100 * x,
        Instruction::Bcd { x } => 0xF033 + 0x100 * x,
        Instruction::StoreRegs { x } => 0xF055 + 0x100 * x,
        Instruction::LoadRegs { x } => 0xF065 + 0x100 * x,
    }
}

/// The four hexadecimal digits of a 16-bit number, and its low twelve and
/// low eight bits, are what the decoder reads.
proof fn lemma_digits(op: int, d1: int, d2: int, d3: int, d4: int)
    requires
        0 <= d1 < 16,
        0 <= d2 < 16,
        0 <= d3 < 16,
        0 <= d4 < 16,
        op == 4096 * d1 + 256 * d2 + 16 * d3 + d4,
    ensures
        0 <= op < 0x10000,
        digit1(op as u16) == d1,
        digit2(op as u16) == d2,
        digit3(op as u16) == d3,
        digit4(op as u16) == d4,
        operand_nnn(op as u16) == 256 * d2 + 16 * d3 + d4,
        operand_nn(op as u16) == 16 * d3 + d4,
{
    let w = op as u16;
    assert(w as int == op);
    lemma_fundamental_div_mod_converse_div(op, 4096, d1, 256 * d2 + 16 * d3 + d4);
    lemma_fundamental_div_mod_converse_mod(op, 4096, d1, 256 * d2 + 16 * d3 + d4);
    lemma_fundamental_div_mod_converse_div(op, 256, 16 * d1 + d2, 16 * d3 + d4);
    lemma_fundamental_div_mod_converse_mod(op, 256, 16 * d1 + d2, 16 * d3 + d4);
    lemma_fundamental_div_mod_converse_mod(16 * d1 + d2, 16, d1, d2);
    lemma_fundamental_div_mod_converse_div(op, 16, 256 * d1 + 16 * d2 + d3, d4);
    lemma_fundamental_div_mod_converse_mod(op, 16, 256 * d1 + 16 * d2 + d3, d4);
    lemma_fundamental_div_mod_converse_mod(256 * d1 + 16 * d2 + d3, 16, 16 * d1 + d2, d3);
}

/// Decoding the opcode of an instruction gives that instruction back.
#[verifier::spinoff_prover]
#[verifier::rlimit(60)]
pub proof fn law_decode_opcode(ins: Instruction)
    requires
        operands_in_range(ins),
    ensures
        0 <= opcode_of(ins) < 0x10000,
        spec_decode(opcode_of(ins) as u16) == Some(ins),
{
    match ins {
        Instruction::Nop => lemma_digits(opcode_of(ins), 0, 0, 0, 0),
        Instruction::ClearScreen => lemma_digits(opcode_of(ins), 0, 0, 0xE, 0),
        Instruction::Return => lemma_digits(opcode_of(ins), 0, 0, 0xE, 0xE),
        Instruction::Jump { addr } => lemma_digits(
            opcode_of(ins),
            1,
            addr as int / 256,
            addr as int / 16 % 16,
            addr as int % 16,
        ),
        Instruction::Call { addr } => lemma_digits(
            opcode_of(ins),
            2,
            addr as int / 256,
            addr as int / 16 % 16,
            addr as int % 16,
        ),
        Instruction::SetIndex { addr } => lemma_digits(
            opcode_of(ins),
            0xA,
            addr as int / 256,
            addr as int / 16 % 16,
            addr as int % 16,
        ),
        Instruction::JumpOffset { addr } => lemma_digits(
            opcode_of(ins),
            0xB,
            addr as int / 256,
            addr as int / 16 % 16,
            addr as int % 16,
        ),
        Instruction::SkipEqImm { x, nn } => lemma_digits(
            opcode_of(ins),
            3,
            x as int,
            nn as int / 16,
            nn as int % 16,
        ),
        Instruction::SkipNeImm { x, nn } => lemma_digits(
            opcode_of(ins),
            4,
            x as int,
            nn as int / 16,
            nn as int % 16,
        ),
        Instruction::SetImm { x, nn } => lemma_digits(
            opcode_of(ins),
            6,
            x as int,
            nn as int / 16,
            nn as int % 16,
        ),
        Instruction::AddImm { x, nn } => lemma_digits(
            opcode_of(ins),
            7,
            x as int,
            nn as int / 16,
            nn as int % 16,
        ),
        Instruction::Random { x, nn } => lemma_digits(
            opcode_of(ins),
            0xC,
            x as int,
            nn as int / 16,
            nn as int % 16,
        ),
        Instruction::SkipEqReg { x, y } => lemma_digits(opcode_of(ins), 5, x as int, y as int, 0),
        Instruction::SkipNeReg { x, y } => lemma_digits(opcode_of(ins), 9, x as int, y as int, 0),
        Instruction::SetReg { x, y } => lemma_digits(opcode_of(ins), 8, x as int, y as int, 0),
        Instruction::Or { x, y } => lemma_digits(opcode_of(ins), 8, x as int, y as int, 1),
        Instruction::And { x, y } => lemma_digits(opcode_of(ins), 8, x as int, y as int, 2),
        Instruction::Xor { x, y } => lemma_digits(opcode_of(ins), 8, x as int, y as int, 3),
        Instruction::AddReg { x, y } => lemma_digits(opcode_of(ins), 8, x as int, y as int, 4),
        Instruction::SubReg { x, y } => lemma_digits(opcode_of(ins), 8, x as int, y as int, 5),
        Instruction::SubRev { x, y } => lemma_digits(opcode_of(ins), 8, x as int, y as int, 7),
        Instruction::ShiftRight { x } => lemma_digits(opcode_of(ins), 8, x as int, 0, 6),
        Instruction::ShiftLeft { x } => lemma_digits(opcode_of(ins), 8, x as int, 0, 0xE),
        Instruction::Draw { x, y, n } => lemma_digits(
            opcode_of(ins),
            0xD,
            x as int,
            y as int,
            n as int,
        ),
        Instruction::SkipKey { x } => lemma_digits(opcode_of(ins), 0xE, x as int, 9, 0xE),
        Instruction::SkipNoKey { x } => lemma_digits(opcode_of(ins), 0xE, x as int, 0xA, 1),
        Instruction::GetDelay { x } => lemma_digits(opcode_of(ins), 0xF, x as int, 0, 7),
        Instruction::WaitKey { x } => lemma_digits(opcode_of(ins), 0xF, x as int, 0, 0xA),
        Instruction::SetDelay { x } => lemma_digits(opcode_of(ins), 0xF, x as int, 1, 5),
        Instruction::SetSound { x } => lemma_digits(opcode_of(ins), 0xF, x as int, 1, 8),
        Instruction::AddIndex { x } => lemma_digits(opcode_of(ins), 0xF, x as int, 1, 0xE),
        Instruction::FontChar { x } => lemma_digits(opcode_of(ins), 0xF, x as int, 2, 9),
        Instruction::Bcd { x } => lemma_digits(opcode_of(ins), 0xF, x as int, 3, 3),
        Instruction::StoreRegs { x } => lemma_digits(opcode_of(ins), 0xF, x as int, 5, 5),
        Instruction::LoadRegs { x } => lemma_digits(opcode_of(ins), 0xF, x as int, 6, 5),
    }
}

/// An opcode that decodes is the opcode of what it decodes to, except that
/// 8XY6 and 8XYE ignore Y.
#[verifier::spinoff_prover]
#[verifier::rlimit(60)]
pub proof fn law_opcode_decode(op: u16)
    ensures
        spec_decode(op) matches Some(ins) ==> {
            ||| opcode_of(ins) == op
            ||| ((ins is ShiftRight || ins is ShiftLeft) && opcode_of(ins) == op - (op / 16 % 16)
                * 16)
        },
{
}

/// The opcode fetched is the byte at `pc` followed by the byte after it,
/// most significant first, and fetching moves `pc` on by 2.
pub proof fn law_fetch(s: EmuView)
    requires
        well_formed(s),
        fetch_ok(s),
    ensures
        fetched_op(s) / 256 == s.ram[s.pc as int],
        fetched_op(s) % 256 == s.ram[s.pc + 1],
        after_fetch(s).pc == s.pc + 2,
        only_pc_changes(s, after_fetch(s)),
{
}

// ---------------------------------------------------------------------------
// Memory

/// FX33 writes the hundreds, tens and ones of Vx to I, I+1 and I+2, each
/// below 10, and changes no other byte nor anything else.
#[verifier::spinoff_prover]
#[verifier::rlimit(40)]
pub proof fn law_bcd(s: EmuView, x: u8, rnd: u8)
    requires
        well_formed(s),
        x < 16,
        exec_ok(s, Instruction::Bcd { x }),
    ensures
        ({
            let t = spec_execute(s, Instruction::Bcd { x }, rnd);
            let i = s.i as int;
            &&& t.ram.len() == s.ram.len()
            &&& t.ram[i] < 10 && t.ram[i + 1] < 10 && t.ram[i + 2] < 10
            &&& 100 * t.ram[i] + 10 * t.ram[i + 1] + t.ram[i + 2] == s.v[x as int]
            &&& forall|a: int|
                0 <= a < s.ram.len() && (a < i || a > i + 2) ==> #[trigger] t.ram[a] == s.ram[a]
            &&& t == (EmuView { ram: t.ram, ..s })
        }),
{
}

/// FX55 writes V0 to Vx to I onward and changes no other byte nor anything
/// else; FX65 reads V0 to Vx from I onward and changes no other register
/// nor anything else.
#[verifier::spinoff_prover]
#[verifier::rlimit(40)]
pub proof fn law_store_and_load_regs(s: EmuView, x: u8, rnd: u8)
    requires
        well_formed(s),
        x < 16,
        s.i + x < 4096,
    ensures
        ({
            let t = spec_execute(s, Instruction::StoreRegs { x }, rnd);
            &&& t.ram.len() == s.ram.len()
            &&& forall|k: int| 0 <= k <= x ==> #[trigger] t.ram[s.i + k] == s.v[k]
            &&& forall|a: int|
                0 <= a < s.ram.len() && (a < s.i || a > s.i + x) ==> #[trigger] t.ram[a]
                    == s.ram[a]
            &&& t == (EmuView { ram: t.ram, ..s })
        }),
        ({
            let t = spec_execute(s, Instruction::LoadRegs { x }, rnd);
            &&& forall|k: int| 0 <= k <= x ==> #[trigger] t.v[k] == s.ram[s.i + k]
            &&& forall|k: int| x < k < NUM_REGS ==> #[trigger] t.v[k] == s.v[k]
            &&& t.v.len() == NUM_REGS
            &&& only_registers_change(s, t)
        }),
{
    let t = spec_execute(s, Instruction::StoreRegs { x }, rnd);
    assert(t == (EmuView { ram: t.ram, ..s }));
}

/// Loading a program writes its bytes from `START_ADDR` onward and changes
/// nothing else.
pub proof fn law_load(s: EmuView, data: Seq<u8>)
    requires
        well_formed(s),
        START_ADDR + data.len() <= RAM_SIZE,
    ensures
        ({
            let t = spec_load(s, data);
            &&& t.ram.len() == RAM_SIZE
            &&& forall|k: int| 0 <= k < data.len() ==> #[trigger] t.ram[START_ADDR + k] == data[k]
            &&& forall|a: int|
                0 <= a < RAM_SIZE && (a < START_ADDR || a >= START_ADDR + data.len())
                    ==> #[trigger] t.ram[a] == s.ram[a]
            &&& t == (EmuView { ram: t.ram, ..s })
        }),
{
    let t = spec_load(s, data);
    assert forall|k: int| 0 <= k < data.len() implies #[trigger] t.ram[START_ADDR + k] == data[k] by {
        assert(t.ram[START_ADDR + k] == data[(START_ADDR + k) - START_ADDR]);
    }
}

// ---------------------------------------------------------------------------
// Keypad, timers and the initial state

/// A key press or release changes that key only.
pub proof fn law_keypress(s: EmuView, idx: int, pressed: bool)
    requires
        well_formed(s),
        0 <= idx < NUM_KEYS,
    ensures
        ({
            let t = spec_keypress(s, idx, pressed);
            &&& t.keys.len() == NUM_KEYS
            &&& t.keys[idx] == pressed
            &&& forall|k: int| 0 <= k < NUM_KEYS && k != idx ==> #[trigger] t.keys[k] == s.keys[k]
            &&& t == (EmuView { keys: t.keys, ..s })
        }),
{
}

/// A timer step lowers each nonzero timer by one, keeps zero timers at zero,
/// and changes nothing else.
pub proof fn law_timer_step(s: EmuView)
    ensures
        spec_tick_timers(s).dt + (if s.dt > 0 { 1int } else { 0int }) == s.dt,
        spec_tick_timers(s).st + (if s.st > 0 { 1int } else { 0int }) == s.st,
        spec_tick_timers(s) == (EmuView {
            dt: spec_tick_timers(s).dt,
            st: spec_tick_timers(s).st,
            ..s
        }),
{
}

/// A new machine starts at `START_ADDR` with the font at the start of
/// memory, all other memory, the registers, I, the stack pointer, both
/// timers and every key zero or released, and a dark screen.
pub proof fn law_initial_state()
    ensures
        ({
            let s = initial_view();
            &&& well_formed(s)
            &&& s.pc == START_ADDR && s.i == 0 && s.sp == 0 && s.dt == 0 && s.st == 0
            &&& forall|a: int| 0 <= a < FONTSET_SIZE ==> #[trigger] s.ram[a] == FONTSET@[a]
            &&& forall|a: int| FONTSET_SIZE <= a < RAM_SIZE ==> #[trigger] s.ram[a] == 0
            &&& forall|k: int| 0 <= k < NUM_REGS ==> #[trigger] s.v[k] == 0
            &&& forall|p: int| 0 <= p < SCREEN_SIZE ==> !#[trigger] s.screen[p]
            &&& forall|k: int| 0 <= k < NUM_KEYS ==> !#[trigger] s.keys[k]
        }),
{
}

} // verus!
