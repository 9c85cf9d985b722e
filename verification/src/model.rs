//! The mathematical model of the machine and of every instruction.
use vstd::prelude::*;

use crate::{FONTSET, NUM_KEYS, NUM_REGS, RAM_SIZE, SCREEN_SIZE, STACK_SIZE, START_ADDR};

verus! {

/// The whole machine state as plain mathematical values.
#[verifier::ext_equal]
pub struct EmuView {
    /// Address of the next instruction.
    pub pc: u16,
    /// Memory, `RAM_SIZE` bytes.
    pub ram: Seq<u8>,
    /// Frame buffer, `SCREEN_SIZE` pixels row by row; `true` is lit.
    pub screen: Seq<bool>,
    /// Registers V0 to VF.
    pub v: Seq<u8>,
    /// The index register I.
    pub i: u16,
    /// Number of return addresses on the stack.
    pub sp: u16,
    /// Return address slots.
    pub stack: Seq<u16>,
    /// Keypad, `true` while a key is held.
    pub keys: Seq<bool>,
    /// Delay timer.
    pub dt: u8,
    /// Sound timer.
    pub st: u8,
}

/// A decoded instruction. Register operands `x` and `y` are below 16,
/// addresses below 4096, `n` below 16.
#[derive(Clone, Copy, Debug)]
pub enum Instruction {
    /// 0000: do nothing.
    Nop,
    /// 00E0: clear the screen.
    ClearScreen,
    /// 00EE: return from a subroutine.
    Return,
    /// 1NNN: jump to NNN.
    Jump { addr: u16 },
    /// 2NNN: call the subroutine at NNN.
    Call { addr: u16 },
    /// 3XNN: skip the next instruction if Vx == NN.
    SkipEqImm { x: u8, nn: u8 },
    /// 4XNN: skip the next instruction if Vx != NN.
    SkipNeImm { x: u8, nn: u8 },
    /// 5XY0: skip the next instruction if Vx == Vy.
    SkipEqReg { x: u8, y: u8 },
    /// 6XNN: Vx = NN.
    SetImm { x: u8, nn: u8 },
    /// 7XNN: Vx = Vx + NN, wrapping, VF untouched.
    AddImm { x: u8, nn: u8 },
    /// 8XY0: Vx = Vy.
    SetReg { x: u8, y: u8 },
    /// 8XY1: Vx = Vx | Vy.
    Or { x: u8, y: u8 },
    /// 8XY2: Vx = Vx & Vy.
    And { x: u8, y: u8 },
    /// 8XY3: Vx = Vx ^ Vy.
    Xor { x: u8, y: u8 },
    /// 8XY4: Vx = Vx + Vy, VF = carry.
    AddReg { x: u8, y: u8 },
    /// 8XY5: Vx = Vx - Vy, VF = not borrow.
    SubReg { x: u8, y: u8 },
    /// 8XY6: Vx = Vx >> 1, VF = the bit shifted out.
    ShiftRight { x: u8 },
    /// 8XY7: Vx = Vy - Vx, VF = not borrow.
    SubRev { x: u8, y: u8 },
    /// 8XYE: Vx = Vx << 1, VF = the bit shifted out.
    ShiftLeft { x: u8 },
    /// 9XY0: skip the next instruction if Vx != Vy.
    SkipNeReg { x: u8, y: u8 },
    /// ANNN: I = NNN.
    SetIndex { addr: u16 },
    /// BNNN: jump to V0 + NNN.
    JumpOffset { addr: u16 },
    /// CXNN: Vx = a random byte & NN.
    Random { x: u8, nn: u8 },
    /// DXYN: draw the N-row sprite at memory I at (Vx, Vy), VF = collision.
    Draw { x: u8, y: u8, n: u8 },
    /// EX9E: skip the next instruction if key Vx is held.
    SkipKey { x: u8 },
    /// EXA1: skip the next instruction if key Vx is not held.
    SkipNoKey { x: u8 },
    /// FX07: Vx = delay timer.
    GetDelay { x: u8 },
    /// FX0A: wait for a key; Vx = the lowest held key.
    WaitKey { x: u8 },
    /// FX15: delay timer = Vx.
    SetDelay { x: u8 },
    /// FX18: sound timer = Vx.
    SetSound { x: u8 },
    /// FX1E: I = I + Vx, wrapping.
    AddIndex { x: u8 },
    /// FX29: I = address of the font glyph of digit Vx.
    FontChar { x: u8 },
    /// FX33: store the decimal digits of Vx at I, I+1, I+2.
    Bcd { x: u8 },
    /// FX55: store V0..=Vx at I onward.
    StoreRegs { x: u8 },
    /// FX65: load V0..=Vx from I onward.
    LoadRegs { x: u8 },
}

/// Lengths that every state of the machine has.
pub open spec fn well_formed(s: EmuView) -> bool {
    &&& s.ram.len() == RAM_SIZE
    &&& s.screen.len() == SCREEN_SIZE
    &&& s.v.len() == NUM_REGS
    &&& s.stack.len() == STACK_SIZE
    &&& s.keys.len() == NUM_KEYS
}

// ---------------------------------------------------------------------------
// Initial state

/// Memory of a freshly started machine: the font, then zeros.
pub open spec fn initial_ram() -> Seq<u8> {
    Seq::new(RAM_SIZE as nat, |a: int| if a < FONTSET@.len() { FONTSET@[a] } else { 0u8 })
}

/// The state of a freshly started (or reset) machine.
pub open spec fn initial_view() -> EmuView {
    EmuView {
        pc: START_ADDR,
        ram: initial_ram(),
        screen: Seq::new(SCREEN_SIZE as nat, |p: int| false),
        v: Seq::new(NUM_REGS as nat, |k: int| 0u8),
        i: 0,
        sp: 0,
        stack: Seq::new(STACK_SIZE as nat, |k: int| 0u16),
        keys: Seq::new(NUM_KEYS as nat, |k: int| false),
        dt: 0,
        st: 0,
    }
}

// ---------------------------------------------------------------------------
// Decoding

/// The four hexadecimal digits of an opcode, most significant first.
pub open spec fn digit1(op: u16) -> int {
    op as int / 4096
}

pub open spec fn digit2(op: u16) -> int {
    (op as int / 256) % 16
}

pub open spec fn digit3(op: u16) -> int {
    (op as int / 16) % 16
}

pub open spec fn digit4(op: u16) -> int {
    op as int % 16
}

/// The address operand NNN.
pub open spec fn operand_nnn(op: u16) -> u16 {
    (op as int % 4096) as u16
}

/// The byte operand NN.
pub open spec fn operand_nn(op: u16) -> u8 {
    (op as int % 256) as u8
}

/// The instruction an opcode denotes, or `None` for an opcode the machine
/// does not implement.
pub open spec fn spec_decode(op: u16) -> Option<Instruction> {
    decode_fields(digit1(op), digit2(op), digit3(op), digit4(op), operand_nnn(op), operand_nn(op))
}

/// The instruction with the given hexadecimal digits, most significant first,
/// and the operands NNN and NN that they hold.
pub open spec fn decode_fields(d1: int, d2: int, d3: int, d4: int, nnn: u16, nn: u8) -> Option<
    Instruction,
> {
    let x = d2 as u8;
    let y = d3 as u8;
    if d1 == 0 && d2 == 0 && d3 == 0 && d4 == 0 {
        Some(Instruction::Nop)
    } else if d1 == 0 && d2 == 0 && d3 == 0xE && d4 == 0 {
        Some(Instruction::ClearScreen)
    } else if d1 == 0 && d2 == 0 && d3 == 0xE && d4 == 0xE {
        Some(Instruction::Return)
    } else if d1 == 1 {
        Some(Instruction::Jump { addr: nnn })
    } else if d1 == 2 {
        Some(Instruction::Call { addr: nnn })
    } else if d1 == 3 {
        Some(Instruction::SkipEqImm { x, nn })
    } else if d1 == 4 {
        Some(Instruction::SkipNeImm { x, nn })
    } else if d1 == 5 && d4 == 0 {
        Some(Instruction::SkipEqReg { x, y })
    } else if d1 == 6 {
        Some(Instruction::SetImm { x, nn })
    } else if d1 == 7 {
        Some(Instruction::AddImm { x, nn })
    } else if d1 == 8 && d4 == 0 {
        Some(Instruction::SetReg { x, y })
    } else if d1 == 8 && d4 == 1 {
        Some(Instruction::Or { x, y })
    } else if d1 == 8 && d4 == 2 {
        Some(Instruction::And { x, y })
    } else if d1 == 8 && d4 == 3 {
        Some(Instruction::Xor { x, y })
    } else if d1 == 8 && d4 == 4 {
        Some(Instruction::AddReg { x, y })
    } else if d1 == 8 && d4 == 5 {
        Some(Instruction::SubReg { x, y })
    } else if d1 == 8 && d4 == 6 {
        Some(Instruction::ShiftRight { x })
    } else if d1 == 8 && d4 == 7 {
        Some(Instruction::SubRev { x, y })
    } else if d1 == 8 && d4 == 0xE {
        Some(Instruction::ShiftLeft { x })
    } else if d1 == 9 && d4 == 0 {
        Some(Instruction::SkipNeReg { x, y })
    } else if d1 == 0xA {
        Some(Instruction::SetIndex { addr: nnn })
    } else if d1 == 0xB {
        Some(Instruction::JumpOffset { addr: nnn })
    } else if d1 == 0xC {
        Some(Instruction::Random { x, nn })
    } else if d1 == 0xD {
        Some(Instruction::Draw { x, y, n: d4 as u8 })
    } else if d1 == 0xE && d3 == 9 && d4 == 0xE {
        Some(Instruction::SkipKey { x })
    } else if d1 == 0xE && d3 == 0xA && d4 == 1 {
        Some(Instruction::SkipNoKey { x })
    } else if d1 == 0xF && d3 == 0 && d4 == 7 {
        Some(Instruction::GetDelay { x })
    } else if d1 == 0xF && d3 == 0 && d4 == 0xA {
        Some(Instruction::WaitKey { x })
    } else if d1 == 0xF && d3 == 1 && d4 == 5 {
        Some(Instruction::SetDelay { x })
    } else if d1 == 0xF && d3 == 1 && d4 == 8 {
        Some(Instruction::SetSound { x })
    } else if d1 == 0xF && d3 == 1 && d4 == 0xE {
        Some(Instruction::AddIndex { x })
    } else if d1 == 0xF && d3 == 2 && d4 == 9 {
        Some(Instruction::FontChar { x })
    } else if d1 == 0xF && d3 == 3 && d4 == 3 {
        Some(Instruction::Bcd { x })
    } else if d1 == 0xF && d3 == 5 && d4 == 5 {
        Some(Instruction::StoreRegs { x })
    } else if d1 == 0xF && d3 == 6 && d4 == 5 {
        Some(Instruction::LoadRegs { x })
    } else {
        None
    }
}

/// The operands of an instruction name registers below 16, addresses below
/// 4096 and sprite heights below 16, as every decoded instruction does.
pub open spec fn operands_in_range(ins: Instruction) -> bool {
    match ins {
        Instruction::Jump { addr } => addr < 4096,
        Instruction::Call { addr } => addr < 4096,
        Instruction::SetIndex { addr } => addr < 4096,
        Instruction::JumpOffset { addr } => addr < 4096,
        Instruction::SkipEqImm { x, .. } => x < 16,
        Instruction::SkipNeImm { x, .. } => x < 16,
        Instruction::SetImm { x, .. } => x < 16,
        Instruction::AddImm { x, .. } => x < 16,
        Instruction::Random { x, .. } => x < 16,
        Instruction::SkipEqReg { x, y } => x < 16 && y < 16,
        Instruction::SkipNeReg { x, y } => x < 16 && y < 16,
        Instruction::SetReg { x, y } => x < 16 && y < 16,
        Instruction::Or { x, y } => x < 16 && y < 16,
        Instruction::And { x, y } => x < 16 && y < 16,
        Instruction::Xor { x, y } => x < 16 && y < 16,
        Instruction::AddReg { x, y } => x < 16 && y < 16,
        Instruction::SubReg { x, y } => x < 16 && y < 16,
        Instruction::SubRev { x, y } => x < 16 && y < 16,
        Instruction::Draw { x, y, n } => x < 16 && y < 16 && n < 16,
        Instruction::ShiftRight { x } => x < 16,
        Instruction::ShiftLeft { x } => x < 16,
        Instruction::SkipKey { x } => x < 16,
        Instruction::SkipNoKey { x } => x < 16,
        Instruction::GetDelay { x } => x < 16,
        Instruction::WaitKey { x } => x < 16,
        Instruction::SetDelay { x } => x < 16,
        Instruction::SetSound { x } => x < 16,
        Instruction::AddIndex { x } => x < 16,
        Instruction::FontChar { x } => x < 16,
        Instruction::Bcd { x } => x < 16,
        Instruction::StoreRegs { x } => x < 16,
        Instruction::LoadRegs { x } => x < 16,
        _ => true,
    }
}

/// Every instruction that an opcode decodes to has its operands in range.
pub proof fn lemma_decode_in_range(op: u16)
    ensures
        spec_decode(op) matches Some(ins) ==> operands_in_range(ins),
{
}

// ---------------------------------------------------------------------------
// Helpers of the instruction semantics

/// Whether any key of the keypad is held.
pub open spec fn any_key_pressed(keys: Seq<bool>) -> bool {
    exists|k: int| 0 <= k < NUM_KEYS && #[trigger] keys[k]
}

/// `k` is the lowest held key.
pub open spec fn is_lowest_pressed(keys: Seq<bool>, k: int) -> bool {
    &&& 0 <= k < NUM_KEYS
    &&& keys[k]
    &&& forall|j: int| 0 <= j < k ==> !#[trigger] keys[j]
}

/// The lowest held key (meaningful when some key is held).
pub open spec fn lowest_pressed(keys: Seq<bool>) -> int {
    choose|k: int| is_lowest_pressed(keys, k)
}

/// When some key at or above `j` is held and none below `j` is, a lowest held
/// key exists.
pub proof fn lemma_lowest_pressed_exists(keys: Seq<bool>, j: int)
    requires
        0 <= j <= NUM_KEYS,
        forall|i: int| 0 <= i < j ==> !#[trigger] keys[i],
        exists|k: int| j <= k < NUM_KEYS && #[trigger] keys[k],
    ensures
        is_lowest_pressed(keys, lowest_pressed(keys)),
    decreases NUM_KEYS - j,
{
    if keys[j] {
        assert(is_lowest_pressed(keys, j));
    } else {
        lemma_lowest_pressed_exists(keys, j + 1);
    }
}

/// Bit `col` of a sprite row, counting from the most significant bit.
pub open spec fn sprite_bit(row: u8, col: int) -> bool {
    (row >> ((7 - col) as u8)) & 1u8 == 1u8
}

/// The sprite row drawn onto pixel `p`, wrapping around the screen.
pub open spec fn sprite_row_at(yc: u8, p: int) -> int {
    (p / 64 - yc as int) % 32
}

/// The sprite column drawn onto pixel `p`, wrapping around the screen.
pub open spec fn sprite_col_at(xc: u8, p: int) -> int {
    (p % 64 - xc as int) % 64
}

/// Whether drawing the `n`-row sprite at memory `i` with its top left corner at
/// (`xc`, `yc`) flips pixel `p`.
pub open spec fn draw_hits(ram: Seq<u8>, i: u16, xc: u8, yc: u8, n: u8, p: int) -> bool {
    let row = sprite_row_at(yc, p);
    let col = sprite_col_at(xc, p);
    row < n && col < 8 && sprite_bit(ram[i + row], col)
}

/// The screen after XOR-drawing a sprite.
pub open spec fn drawn_screen(s: EmuView, xc: u8, yc: u8, n: u8) -> Seq<bool> {
    Seq::new(
        s.screen.len(),
        |p: int| s.screen[p] != draw_hits(s.ram, s.i, xc, yc, n, p),
    )
}

/// Whether drawing a sprite turns off a lit pixel.
pub open spec fn draw_collides(s: EmuView, xc: u8, yc: u8, n: u8) -> bool {
    exists|p: int|
        0 <= p < s.screen.len() && #[trigger] draw_hits(s.ram, s.i, xc, yc, n, p) && s.screen[p]
}

/// The state with `pc` advanced past one instruction when `cond` holds.
pub open spec fn skip_if(s: EmuView, cond: bool) -> EmuView {
    if cond {
        EmuView { pc: (s.pc + 2) as u16, ..s }
    } else {
        s
    }
}

/// Whether an instruction would skip the next one.
pub open spec fn skip_taken(s: EmuView, ins: Instruction) -> bool {
    match ins {
        Instruction::SkipEqImm { x, nn } => s.v[x as int] == nn,
        Instruction::SkipNeImm { x, nn } => s.v[x as int] != nn,
        Instruction::SkipEqReg { x, y } => s.v[x as int] == s.v[y as int],
        Instruction::SkipNeReg { x, y } => s.v[x as int] != s.v[y as int],
        Instruction::SkipKey { x } => s.keys[s.v[x as int] as int],
        Instruction::SkipNoKey { x } => !s.keys[s.v[x as int] as int],
        _ => false,
    }
}

/// The inputs on which executing `ins` in state `s` neither indexes out of
/// bounds nor overflows.
pub open spec fn exec_ok(s: EmuView, ins: Instruction) -> bool {
    &&& skip_taken(s, ins) ==> s.pc + 2 <= u16::MAX
    &&& match ins {
        Instruction::Return => 1 <= s.sp <= STACK_SIZE,
        Instruction::Call { .. } => s.sp < STACK_SIZE,
        Instruction::Draw { n, .. } => n == 0 || s.i + n <= RAM_SIZE,
        Instruction::SkipKey { x } => s.v[x as int] < NUM_KEYS,
        Instruction::SkipNoKey { x } => s.v[x as int] < NUM_KEYS,
        Instruction::WaitKey { .. } => any_key_pressed(s.keys) || s.pc >= 2,
        Instruction::Bcd { .. } => s.i + 2 < RAM_SIZE,
        Instruction::StoreRegs { x } => s.i + x < RAM_SIZE,
        Instruction::LoadRegs { x } => s.i + x < RAM_SIZE,
        _ => true,
    }
}

/// The state after executing `ins` in state `s`; `rnd` is the random byte
/// that `Random` consumes.
pub open spec fn spec_execute(s: EmuView, ins: Instruction, rnd: u8) -> EmuView {
    match ins {
        Instruction::Nop => s,
        Instruction::ClearScreen => EmuView {
            screen: Seq::new(s.screen.len(), |p: int| false),
            ..s
        },
        Instruction::Return => EmuView {
            pc: s.stack[s.sp - 1],
            sp: (s.sp - 1) as u16,
            ..s
        },
        Instruction::Jump { addr } => EmuView { pc: addr, ..s },
        Instruction::Call { addr } => EmuView {
            pc: addr,
            stack: s.stack.update(s.sp as int, s.pc),
            sp: (s.sp + 1) as u16,
            ..s
        },
        Instruction::SkipEqImm { .. } => skip_if(s, skip_taken(s, ins)),
        Instruction::SkipNeImm { .. } => skip_if(s, skip_taken(s, ins)),
        Instruction::SkipEqReg { .. } => skip_if(s, skip_taken(s, ins)),
        Instruction::SkipNeReg { .. } => skip_if(s, skip_taken(s, ins)),
        Instruction::SkipKey { .. } => skip_if(s, skip_taken(s, ins)),
        Instruction::SkipNoKey { .. } => skip_if(s, skip_taken(s, ins)),
        Instruction::SetImm { x, nn } => EmuView { v: s.v.update(x as int, nn), ..s },
        Instruction::AddImm { x, nn } => EmuView {
            v: s.v.update(x as int, ((s.v[x as int] + nn) % 256) as u8),
            ..s
        },
        Instruction::SetReg { x, y } => EmuView { v: s.v.update(x as int, s.v[y as int]), ..s },
        Instruction::Or { x, y } => EmuView {
            v: s.v.update(x as int, s.v[x as int] | s.v[y as int]),
            ..s
        },
        Instruction::And { x, y } => EmuView {
            v: s.v.update(x as int, s.v[x as int] & s.v[y as int]),
            ..s
        },
        Instruction::Xor { x, y } => EmuView {
            v: s.v.update(x as int, s.v[x as int] ^ s.v[y as int]),
            ..s
        },
        Instruction::AddReg { x, y } => {
            let sum = s.v[x as int] + s.v[y as int];
            EmuView {
                v: s.v.update(x as int, (sum % 256) as u8).update(15, if sum > 255 { 1u8 } else { 0u8 }),
                ..s
            }
        },
        Instruction::SubReg { x, y } => {
            let a = s.v[x as int];
            let b = s.v[y as int];
            EmuView {
                v: s.v.update(x as int, ((a - b) % 256) as u8).update(15, if a >= b { 1u8 } else { 0u8 }),
                ..s
            }
        },
        Instruction::SubRev { x, y } => {
            let a = s.v[x as int];
            let b = s.v[y as int];
            EmuView {
                v: s.v.update(x as int, ((b - a) % 256) as u8).update(15, if b >= a { 1u8 } else { 0u8 }),
                ..s
            }
        },
        Instruction::ShiftRight { x } => {
            let a = s.v[x as int];
            EmuView { v: s.v.update(x as int, a / 2).update(15, a % 2), ..s }
        },
        Instruction::ShiftLeft { x } => {
            let a = s.v[x as int];
            EmuView {
                v: s.v.update(x as int, ((a * 2) % 256) as u8).update(15, a / 128),
                ..s
            }
        },
        Instruction::SetIndex { addr } => EmuView { i: addr, ..s },
        Instruction::JumpOffset { addr } => EmuView { pc: (s.v[0] + addr) as u16, ..s },
        Instruction::Random { x, nn } => EmuView { v: s.v.update(x as int, rnd & nn), ..s },
        Instruction::Draw { x, y, n } => {
            let xc = s.v[x as int];
            let yc = s.v[y as int];
            EmuView {
                screen: drawn_screen(s, xc, yc, n),
                v: s.v.update(15, if draw_collides(s, xc, yc, n) { 1u8 } else { 0u8 }),
                ..s
            }
        },
        Instruction::GetDelay { x } => EmuView { v: s.v.update(x as int, s.dt), ..s },
        Instruction::WaitKey { x } => if any_key_pressed(s.keys) {
            EmuView { v: s.v.update(x as int, lowest_pressed(s.keys) as u8), ..s }
        } else {
            EmuView { pc: (s.pc - 2) as u16, ..s }
        },
        Instruction::SetDelay { x } => EmuView { dt: s.v[x as int], ..s },
        Instruction::SetSound { x } => EmuView { st: s.v[x as int], ..s },
        Instruction::AddIndex { x } => EmuView { i: ((s.i + s.v[x as int]) % 65536) as u16, ..s },
        Instruction::FontChar { x } => EmuView { i: (s.v[x as int] * 5) as u16, ..s },
        Instruction::Bcd { x } => {
            let a = s.v[x as int];
            EmuView {
                ram: s.ram.update(s.i as int, a / 100).update(s.i + 1, (a / 10) % 10).update(
                    s.i + 2,
                    a % 10,
                ),
                ..s
            }
        },
        Instruction::StoreRegs { x } => EmuView {
            ram: Seq::new(
                s.ram.len(),
                |a: int| if s.i <= a <= s.i + x { s.v[a - s.i] } else { s.ram[a] },
            ),
            ..s
        },
        Instruction::LoadRegs { x } => EmuView {
            v: Seq::new(s.v.len(), |k: int| if k <= x { s.ram[s.i + k] } else { s.v[k] }),
            ..s
        },
    }
}

// ---------------------------------------------------------------------------
// Fetching and ticking

/// Whether the two bytes of the next opcode lie in memory.
pub open spec fn fetch_ok(s: EmuView) -> bool {
    s.pc + 1 < RAM_SIZE
}

/// The big-endian opcode at `pc`.
pub open spec fn fetched_op(s: EmuView) -> u16 {
    (s.ram[s.pc as int] * 256 + s.ram[s.pc + 1]) as u16
}

/// The state once the opcode at `pc` has been read.
pub open spec fn after_fetch(s: EmuView) -> EmuView {
    EmuView { pc: (s.pc + 2) as u16, ..s }
}

/// Whether one fetch-and-execute cycle from `s` runs without a fault: the
/// opcode lies in memory, is implemented, and executes without a fault.
pub open spec fn tick_ok(s: EmuView) -> bool {
    &&& fetch_ok(s)
    &&& spec_decode(fetched_op(s)) is Some
    &&& exec_ok(after_fetch(s), spec_decode(fetched_op(s)).unwrap())
}

/// The state after one fetch-and-execute cycle, given the random byte.
pub open spec fn spec_tick(s: EmuView, rnd: u8) -> EmuView {
    spec_execute(after_fetch(s), spec_decode(fetched_op(s)).unwrap(), rnd)
}

/// The state after one step of the 60 Hz timers.
pub open spec fn spec_tick_timers(s: EmuView) -> EmuView {
    EmuView {
        dt: if s.dt > 0 { (s.dt - 1) as u8 } else { 0 },
        st: if s.st > 0 { (s.st - 1) as u8 } else { 0 },
        ..s
    }
}

/// The state after a program image is copied to `START_ADDR`.
pub open spec fn spec_load(s: EmuView, data: Seq<u8>) -> EmuView {
    EmuView {
        ram: Seq::new(
            s.ram.len(),
            |a: int|
                if START_ADDR <= a < START_ADDR + data.len() {
                    data[a - START_ADDR]
                } else {
                    s.ram[a]
                },
        ),
        ..s
    }
}

/// The state after key `idx` is pressed or released.
pub open spec fn spec_keypress(s: EmuView, idx: int, pressed: bool) -> EmuView {
    EmuView { keys: s.keys.update(idx, pressed), ..s }
}

} // verus!
