//! The executable machine.
use vstd::prelude::*;

use crate::model::{
    after_fetch, any_key_pressed, draw_collides, draw_hits, drawn_screen, exec_ok, fetch_ok,
    fetched_op, initial_ram, initial_view, is_lowest_pressed, lemma_decode_in_range,
    lowest_pressed, operands_in_range, spec_decode, spec_execute, spec_keypress, spec_load,
    spec_tick, spec_tick_timers, sprite_bit, sprite_col_at, sprite_row_at, tick_ok, well_formed,
    EmuView, Instruction,
};
use crate::rng::random_byte;
use crate::sprite::{lemma_pixel_of, pixel_of};
use crate::{
    FONTSET, FONTSET_SIZE, NUM_KEYS, NUM_REGS, RAM_SIZE, SCREEN_HEIGHT, SCREEN_SIZE, SCREEN_WIDTH,
    STACK_SIZE, START_ADDR,
};

verus! {

broadcast use vstd::array::group_array_axioms;

/// A CHIP-8 machine.
pub struct Emu {
    pc: u16,
    ram: [u8; RAM_SIZE],
    screen: [bool; SCREEN_SIZE],
    v_reg: [u8; NUM_REGS],
    i_reg: u16,
    sp: u16,
    stack: [u16; STACK_SIZE],
    keys: [bool; NUM_KEYS],
    dt: u8,
    st: u8,
}

impl View for Emu {
    type V = EmuView;

    closed spec fn view(&self) -> EmuView {
        EmuView {
            pc: self.pc,
            ram: self.ram@,
            screen: self.screen@,
            v: self.v_reg@,
            i: self.i_reg,
            sp: self.sp,
            stack: self.stack@,
            keys: self.keys@,
            dt: self.dt,
            st: self.st,
        }
    }
}

/// Memory holding the font at address 0 and zeros elsewhere.
fn fresh_ram() -> (ram: [u8; RAM_SIZE])
    ensures
        ram@ == initial_ram(),
{
    let mut ram = [0u8; RAM_SIZE];
    let mut k: usize = 0;
    while k < FONTSET_SIZE
        invariant
            k <= FONTSET_SIZE,
            forall|a: int| 0 <= a < k ==> ram@[a] == FONTSET@[a],
            forall|a: int| k <= a < RAM_SIZE ==> ram@[a] == 0u8,
        decreases FONTSET_SIZE - k,
    {
        ram[k] = FONTSET[k];
        k += 1;
    }
    assert(ram@ =~= initial_ram());
    ram
}

/// Two bytes joined big-endian.
proof fn lemma_join_bytes(hi: u16, lo: u16)
    requires
        hi < 256,
        lo < 256,
    ensures
        (hi << 8u16) | lo == hi * 256 + lo,
{
    assert((hi << 8u16) | lo == hi * 256 + lo) by (bit_vector)
        requires
            hi < 256,
            lo < 256,
    ;
}

/// The digit and operand masks of an opcode compute the quotients and
/// remainders that the model speaks of.
proof fn lemma_opcode_fields(op: u16)
    ensures
        (op & 0xF000u16) >> 12u16 == op / 4096,
        (op & 0x0F00u16) >> 8u16 == (op / 256) % 16,
        (op & 0x00F0u16) >> 4u16 == (op / 16) % 16,
        op & 0x000Fu16 == op % 16,
        op & 0x0FFFu16 == op % 4096,
        op & 0x00FFu16 == op % 256,
{
    assert((op & 0xF000u16) >> 12u16 == op / 4096) by (bit_vector);
    assert((op & 0x0F00u16) >> 8u16 == (op / 256) % 16) by (bit_vector);
    assert((op & 0x00F0u16) >> 4u16 == (op / 16) % 16) by (bit_vector);
    assert(op & 0x000Fu16 == op % 16) by (bit_vector);
    assert(op & 0x0FFFu16 == op % 4096) by (bit_vector);
    assert(op & 0x00FFu16 == op % 256) by (bit_vector);
}

/// The instruction that an opcode denotes, or `None` for an unimplemented one.
pub fn decode(op: u16) -> (ins: Option<Instruction>)
    ensures
        ins == spec_decode(op),
{
    proof {
        lemma_opcode_fields(op);
    }
    let digit1 = (op & 0xF000) >> 12;
    let digit2 = (op & 0x0F00) >> 8;
    let digit3 = (op & 0x00F0) >> 4;
    let digit4 = op & 0x000F;
    let x = digit2 as u8;
    let y = digit3 as u8;
    let nnn = op & 0x0FFF;
    let nn = (op & 0x00FF) as u8;
    match (digit1, digit2, digit3, digit4) {
        (0, 0, 0, 0) => Some(Instruction::Nop),
        (0, 0, 0xE, 0) => Some(Instruction::ClearScreen),
        (0, 0, 0xE, 0xE) => Some(Instruction::Return),
        (1, _, _, _) => Some(Instruction::Jump { addr: nnn }),
        (2, _, _, _) => Some(Instruction::Call { addr: nnn }),
        (3, _, _, _) => Some(Instruction::SkipEqImm { x, nn }),
        (4, _, _, _) => Some(Instruction::SkipNeImm { x, nn }),
        (5, _, _, 0) => Some(Instruction::SkipEqReg { x, y }),
        (6, _, _, _) => Some(Instruction::SetImm { x, nn }),
        (7, _, _, _) => Some(Instruction::AddImm { x, nn }),
        (8, _, _, 0) => Some(Instruction::SetReg { x, y }),
        (8, _, _, 1) => Some(Instruction::Or { x, y }),
        (8, _, _, 2) => Some(Instruction::And { x, y }),
        (8, _, _, 3) => Some(Instruction::Xor { x, y }),
        (8, _, _, 4) => Some(Instruction::AddReg { x, y }),
        (8, _, _, 5) => Some(Instruction::SubReg { x, y }),
        (8, _, _, 6) => Some(Instruction::ShiftRight { x }),
        (8, _, _, 7) => Some(Instruction::SubRev { x, y }),
        (8, _, _, 0xE) => Some(Instruction::ShiftLeft { x }),
        (9, _, _, 0) => Some(Instruction::SkipNeReg { x, y }),
        (0xA, _, _, _) => Some(Instruction::SetIndex { addr: nnn }),
        (0xB, _, _, _) => Some(Instruction::JumpOffset { addr: nnn }),
        (0xC, _, _, _) => Some(Instruction::Random { x, nn }),
        (0xD, _, _, _) => Some(Instruction::Draw { x, y, n: digit4 as u8 }),
        (0xE, _, 9, 0xE) => Some(Instruction::SkipKey { x }),
        (0xE, _, 0xA, 1) => Some(Instruction::SkipNoKey { x }),
        (0xF, _, 0, 7) => Some(Instruction::GetDelay { x }),
        (0xF, _, 0, 0xA) => Some(Instruction::WaitKey { x }),
        (0xF, _, 1, 5) => Some(Instruction::SetDelay { x }),
        (0xF, _, 1, 8) => Some(Instruction::SetSound { x }),
        (0xF, _, 1, 0xE) => Some(Instruction::AddIndex { x }),
        (0xF, _, 2, 9) => Some(Instruction::FontChar { x }),
        (0xF, _, 3, 3) => Some(Instruction::Bcd { x }),
        (0xF, _, 5, 5) => Some(Instruction::StoreRegs { x }),
        (0xF, _, 6, 5) => Some(Instruction::LoadRegs { x }),
        (_, _, _, _) => None,
    }
}

/// Pixel `p` has been flipped by the sprite rows before `r` or, in row `r`,
/// by the columns before `c`.
spec fn hit_before(s: EmuView, xc: u8, yc: u8, n: u8, r: int, c: int, p: int) -> bool {
    &&& draw_hits(s.ram, s.i, xc, yc, n, p)
    &&& (sprite_row_at(yc, p) < r || (sprite_row_at(yc, p) == r && sprite_col_at(xc, p) < c))
}

/// Some pixel flipped so far was lit before drawing.
spec fn collided_before(s: EmuView, xc: u8, yc: u8, n: u8, r: int, c: int) -> bool {
    exists|p: int| 0 <= p < SCREEN_SIZE && #[trigger] hit_before(s, xc, yc, n, r, c, p) && s.screen[p]
}

/// Two progress points that flip the same pixels agree on collisions.
proof fn lemma_same_hits(s: EmuView, xc: u8, yc: u8, n: u8, r1: int, c1: int, r2: int, c2: int)
    requires
        forall|p: int|
            0 <= p < SCREEN_SIZE ==> #[trigger] hit_before(s, xc, yc, n, r1, c1, p) == hit_before(
                s,
                xc,
                yc,
                n,
                r2,
                c2,
                p,
            ),
    ensures
        collided_before(s, xc, yc, n, r1, c1) == collided_before(s, xc, yc, n, r2, c2),
{
    if collided_before(s, xc, yc, n, r1, c1) {
        let w = choose|p: int|
            0 <= p < SCREEN_SIZE && #[trigger] hit_before(s, xc, yc, n, r1, c1, p) && s.screen[p];
        assert(hit_before(s, xc, yc, n, r2, c2, w));
    }
    if collided_before(s, xc, yc, n, r2, c2) {
        let w = choose|p: int|
            0 <= p < SCREEN_SIZE && #[trigger] hit_before(s, xc, yc, n, r2, c2, p) && s.screen[p];
        assert(hit_before(s, xc, yc, n, r1, c1, w));
    }
}

/// Wrapping addition and subtraction are arithmetic modulo the word size.
proof fn lemma_wrapping(a: u8, b: u8, i: u16)
    ensures
        a.wrapping_add(b) == ((a + b) % 256) as u8,
        a.wrapping_sub(b) == ((a - b) % 256) as u8,
        b.wrapping_sub(a) == ((b - a) % 256) as u8,
        i.wrapping_add(a as u16) == ((i + a) % 65536) as u16,
{
}

/// The shift instructions compute halving, doubling and the bit shifted out.
proof fn lemma_shifts(a: u8)
    ensures
        a & 1u8 == a % 2,
        a >> 1u8 == a / 2,
        (a >> 7u8) & 1u8 == a / 128,
        a << 1u8 == ((a * 2) % 256) as u8,
{
    assert(a & 1u8 == a % 2) by (bit_vector);
    assert(a >> 1u8 == a / 2) by (bit_vector);
    assert((a >> 7u8) & 1u8 == a / 128) by (bit_vector);
    assert(a << 1u8 == ((a * 2) % 256) as u8) by (bit_vector);
}

/// The mask test of the drawing loop reads sprite bit `c`.
proof fn lemma_sprite_mask(pixels: u8, c: u8)
    requires
        c < 8,
    ensures
        ((pixels & (0x80u8 >> c)) != 0u8) == sprite_bit(pixels, c as int),
{
    assert(((pixels & (0x80u8 >> c)) != 0u8) == (((pixels >> ((7u8 - c) as u8)) & 1u8) == 1u8))
        by (bit_vector)
        requires
            c < 8,
    ;
    assert((7 - c as int) as u8 == (7u8 - c) as u8);
}

impl Emu {
    /// Every view of a machine has the lengths of `well_formed`.
    pub proof fn lemma_well_formed(&self)
        ensures
            well_formed(self@),
    {
    }

    /// A machine with the font loaded, everything else cleared, and the
    /// program counter at `START_ADDR`.
    pub fn new() -> (emu: Self)
        ensures
            emu@ == initial_view(),
    {
        let emu = Emu {
            pc: START_ADDR,
            ram: fresh_ram(),
            screen: [false; SCREEN_SIZE],
            v_reg: [0u8; NUM_REGS],
            i_reg: 0,
            sp: 0,
            stack: [0u16; STACK_SIZE],
            keys: [false; NUM_KEYS],
            dt: 0,
            st: 0,
        };
        assert(emu@ =~= initial_view());
        emu
    }

    /// The frame buffer, row by row, `SCREEN_WIDTH` pixels per row.
    pub fn get_display(&self) -> (display: &[bool])
        ensures
            display@ == self@.screen,
    {
        self.screen.as_slice()
    }

    /// The program counter.
    pub fn get_pc(&self) -> (pc: u16)
        ensures
            pc == self@.pc,
    {
        self.pc
    }

    /// The index register I.
    pub fn get_i(&self) -> (i: u16)
        ensures
            i == self@.i,
    {
        self.i_reg
    }

    /// Register V`x`.
    pub fn get_v(&self, x: usize) -> (val: u8)
        requires
            x < NUM_REGS,
        ensures
            val == self@.v[x as int],
    {
        self.v_reg[x]
    }

    /// The byte at memory address `addr`.
    pub fn get_ram(&self, addr: usize) -> (val: u8)
        requires
            addr < RAM_SIZE,
        ensures
            val == self@.ram[addr as int],
    {
        self.ram[addr]
    }

    /// The number of return addresses on the stack.
    pub fn get_sp(&self) -> (sp: u16)
        ensures
            sp == self@.sp,
    {
        self.sp
    }

    /// The delay timer.
    pub fn get_delay_timer(&self) -> (dt: u8)
        ensures
            dt == self@.dt,
    {
        self.dt
    }

    /// The sound timer.
    pub fn get_sound_timer(&self) -> (st: u8)
        ensures
            st == self@.st,
    {
        self.st
    }

    /// Records key `idx` of the keypad as held (`pressed`) or released.
    pub fn keypress(&mut self, idx: usize, pressed: bool)
        requires
            idx < NUM_KEYS,
        ensures
            final(self)@ == spec_keypress(old(self)@, idx as int, pressed),
    {
        self.keys[idx] = pressed;
        assert(self@ =~= spec_keypress(old(self)@, idx as int, pressed));
    }

    /// Copies a program image into memory at `START_ADDR`.
    pub fn load(&mut self, data: &[u8])
        requires
            START_ADDR + data@.len() <= RAM_SIZE,
        ensures
            final(self)@ == spec_load(old(self)@, data@),
    {
        let start = START_ADDR as usize;
        let len = data.len();
        let mut k: usize = 0;
        while k < len
            invariant
                len == data@.len(),
                start == START_ADDR,
                start + len <= RAM_SIZE,
                k <= len,
                self@ == (EmuView { ram: self@.ram, ..old(self)@ }),
                forall|a: int|
                    0 <= a < RAM_SIZE ==> #[trigger] self.ram@[a] == if start <= a < start + k {
                        data@[a - start]
                    } else {
                        old(self)@.ram[a]
                    },
            decreases len - k,
        {
            self.ram[start + k] = data[k];
            k += 1;
        }
        assert(self@ =~= spec_load(old(self)@, data@));
    }

    /// Pushes a return address.
    fn push(&mut self, val: u16)
        requires
            old(self).sp < STACK_SIZE,
        ensures
            final(self)@ == (EmuView {
                stack: old(self)@.stack.update(old(self).sp as int, val),
                sp: (old(self).sp + 1) as u16,
                ..old(self)@
            }),
    {
        self.stack[self.sp as usize] = val;
        self.sp += 1;
        assert(self@ =~= EmuView {
            stack: old(self)@.stack.update(old(self).sp as int, val),
            sp: (old(self).sp + 1) as u16,
            ..old(self)@
        });
    }

    /// Pops the most recent return address.
    fn pop(&mut self) -> (val: u16)
        requires
            1 <= old(self).sp <= STACK_SIZE,
        ensures
            val == old(self)@.stack[old(self).sp - 1],
            final(self)@ == (EmuView { sp: (old(self).sp - 1) as u16, ..old(self)@ }),
    {
        self.sp -= 1;
        let val = self.stack[self.sp as usize];
        assert(self@ =~= EmuView { sp: (old(self).sp - 1) as u16, ..old(self)@ });
        val
    }

    /// The big-endian opcode at `pc`.
    fn peek_op(&self) -> (op: u16)
        requires
            fetch_ok(self@),
        ensures
            op == fetched_op(self@),
    {
        let higher_byte = self.ram[self.pc as usize] as u16;
        let lower_byte = self.ram[(self.pc + 1) as usize] as u16;
        proof {
            lemma_join_bytes(higher_byte, lower_byte);
        }
        (higher_byte << 8) | lower_byte
    }

    /// Reads the big-endian opcode at `pc` and advances `pc` past it.
    fn fetch(&mut self) -> (op: u16)
        requires
            fetch_ok(old(self)@),
        ensures
            op == fetched_op(old(self)@),
            final(self)@ == after_fetch(old(self)@),
    {
        let op = self.peek_op();
        self.pc += 2;
        assert(self@ =~= after_fetch(old(self)@));
        op
    }

    /// Whether some key of the keypad is held.
    pub fn any_key_held(&self) -> (held: bool)
        ensures
            held == any_key_pressed(self@.keys),
    {
        let mut k: usize = 0;
        while k < NUM_KEYS
            invariant
                k <= NUM_KEYS,
                forall|j: int| 0 <= j < k ==> !#[trigger] self.keys@[j],
            decreases NUM_KEYS - k,
        {
            if self.keys[k] {
                return true;
            }
            k += 1;
        }
        false
    }

    /// Whether `ins` executes without a fault once `pc` holds `pc`.
    fn exec_ok_at(&self, pc: u16, ins: Instruction) -> (ok: bool)
        requires
            operands_in_range(ins),
        ensures
            ok == exec_ok(EmuView { pc, ..self@ }, ins),
    {
        let room = pc <= u16::MAX - 2;
        match ins {
            Instruction::Return => 1 <= self.sp && self.sp as usize <= STACK_SIZE,
            Instruction::Call { .. } => (self.sp as usize) < STACK_SIZE,
            Instruction::SkipEqImm { x, nn } => self.v_reg[x as usize] != nn || room,
            Instruction::SkipNeImm { x, nn } => self.v_reg[x as usize] == nn || room,
            Instruction::SkipEqReg { x, y } => self.v_reg[x as usize] != self.v_reg[y as usize]
                || room,
            Instruction::SkipNeReg { x, y } => self.v_reg[x as usize] == self.v_reg[y as usize]
                || room,
            Instruction::SkipKey { x } => {
                let k = self.v_reg[x as usize] as usize;
                k < NUM_KEYS && (!self.keys[k] || room)
            },
            Instruction::SkipNoKey { x } => {
                let k = self.v_reg[x as usize] as usize;
                k < NUM_KEYS && (self.keys[k] || room)
            },
            Instruction::Draw { n, .. } => n == 0 || self.i_reg as usize + n as usize <= RAM_SIZE,
            Instruction::WaitKey { .. } => self.any_key_held() || pc >= 2,
            Instruction::Bcd { .. } => (self.i_reg as usize) + 2 < RAM_SIZE,
            Instruction::StoreRegs { x } => (self.i_reg as usize) + (x as usize) < RAM_SIZE,
            Instruction::LoadRegs { x } => (self.i_reg as usize) + (x as usize) < RAM_SIZE,
            _ => true,
        }
    }

    /// Whether `ins` executes without a fault in the current state.
    pub fn can_execute(&self, ins: Instruction) -> (ok: bool)
        requires
            operands_in_range(ins),
        ensures
            ok == exec_ok(self@, ins),
    {
        let ok = self.exec_ok_at(self.pc, ins);
        assert(EmuView { pc: self.pc, ..self@ } =~= self@);
        ok
    }

    /// Whether the next `tick` runs without a fault: the opcode at `pc` lies
    /// in memory, is implemented, and executes without a fault.
    pub fn can_tick(&self) -> (ok: bool)
        ensures
            ok == tick_ok(self@),
    {
        if self.pc as usize + 1 >= RAM_SIZE {
            return false;
        }
        let op = self.peek_op();
        proof {
            lemma_decode_in_range(op);
        }
        match decode(op) {
            Some(ins) => {
                let ok = self.exec_ok_at(self.pc + 2, ins);
                assert(EmuView { pc: (self.pc + 2) as u16, ..self@ } =~= after_fetch(self@));
                ok
            },
            None => false,
        }
    }

    /// XOR-draws the `n`-row sprite at memory I at (Vx, Vy) and sets VF to
    /// whether a lit pixel went dark.
    fn draw(&mut self, x: u8, y: u8, n: u8)
        requires
            x < 16,
            y < 16,
            n < 16,
            n == 0 || old(self).i_reg + n <= RAM_SIZE,
        ensures
            final(self)@ == spec_execute(old(self)@, Instruction::Draw { x, y, n }, 0),
    {
        let ghost s = self@;
        let x_coord = self.v_reg[x as usize] as u16;
        let y_coord = self.v_reg[y as usize] as u16;
        let ghost xc = s.v[x as int];
        let ghost yc = s.v[y as int];
        let num_rows = n as u16;
        let mut flipped = false;
        let mut y_line: u16 = 0;
        while y_line < num_rows
            invariant
                well_formed(s),
                y_line <= num_rows,
                num_rows == n,
                n < 16,
                n == 0 || s.i + n <= RAM_SIZE,
                x_coord == xc,
                y_coord == yc,
                self@ == (EmuView { screen: self@.screen, ..s }),
                forall|p: int|
                    0 <= p < SCREEN_SIZE ==> #[trigger] self.screen@[p] == (s.screen[p]
                        != hit_before(s, xc, yc, n, y_line as int, 0, p)),
                flipped == collided_before(s, xc, yc, n, y_line as int, 0),
            decreases num_rows - y_line,
        {
            let addr = self.i_reg + y_line;
            let pixels = self.ram[addr as usize];
            let mut x_line: u8 = 0;
            while x_line < 8
                invariant
                    well_formed(s),
                    y_line < num_rows,
                    x_line <= 8,
                    num_rows == n,
                    n < 16,
                    s.i + n <= RAM_SIZE,
                    pixels == s.ram[s.i + y_line],
                    x_coord == xc,
                    y_coord == yc,
                    self@ == (EmuView { screen: self@.screen, ..s }),
                    forall|p: int|
                        0 <= p < SCREEN_SIZE ==> #[trigger] self.screen@[p] == (s.screen[p]
                            != hit_before(s, xc, yc, n, y_line as int, x_line as int, p)),
                    flipped == collided_before(s, xc, yc, n, y_line as int, x_line as int),
                decreases 8 - x_line,
            {
                let ghost r = y_line as int;
                let ghost c = x_line as int;
                let ghost idx = pixel_of(xc, yc, r, c);
                proof {
                    lemma_pixel_of(xc, yc, r, c);
                    lemma_sprite_mask(pixels, x_line);
                }
                let ghost old_flipped = flipped;
                let ghost before = self.screen@;
                if (pixels & (0x80u8 >> x_line)) != 0 {
                    let px = (x_coord + x_line as u16) as usize % SCREEN_WIDTH;
                    let py = (y_coord + y_line) as usize % SCREEN_HEIGHT;
                    let pix = px + SCREEN_WIDTH * py;
                    assert(pix == idx);
                    assert(!hit_before(s, xc, yc, n, r, c, idx));
                    flipped = flipped || self.screen[pix];
                    self.screen[pix] = !self.screen[pix];
                    proof {
                        assert forall|p: int| 0 <= p < SCREEN_SIZE implies #[trigger] hit_before(
                            s,
                            xc,
                            yc,
                            n,
                            r,
                            c + 1,
                            p,
                        ) == (hit_before(s, xc, yc, n, r, c, p) || p == idx) by {}
                        assert(self.screen@[idx as int] == (s.screen[idx] != hit_before(s, xc, yc, n, r, c + 1, idx)));
                        if flipped {
                            if old_flipped {
                                let ghost w = choose|p: int|
                                    0 <= p < SCREEN_SIZE && #[trigger] hit_before(s, xc, yc, n, r, c, p)
                                        && s.screen[p];
                                assert(hit_before(s, xc, yc, n, r, c + 1, w));
                            } else {
                                assert(hit_before(s, xc, yc, n, r, c + 1, idx));
                            }
                        } else {
                            assert forall|p: int| 0 <= p < SCREEN_SIZE && #[trigger] hit_before(
                                s,
                                xc,
                                yc,
                                n,
                                r,
                                c + 1,
                                p,
                            ) implies !s.screen[p] by {
                                if p != idx {
                                    assert(hit_before(s, xc, yc, n, r, c, p));
                                }
                            }
                        }
                    }
                } else {
                    assert forall|p: int| 0 <= p < SCREEN_SIZE implies #[trigger] hit_before(
                        s,
                        xc,
                        yc,
                        n,
                        r,
                        c + 1,
                        p,
                    ) == hit_before(s, xc, yc, n, r, c, p) by {}
                    proof {
                        lemma_same_hits(s, xc, yc, n, r, c, r, c + 1);
                    }
                }
                x_line += 1;
            }
            proof {
                assert forall|p: int| 0 <= p < SCREEN_SIZE implies #[trigger] hit_before(
                    s,
                    xc,
                    yc,
                    n,
                    y_line as int,
                    8,
                    p,
                ) == hit_before(s, xc, yc, n, y_line + 1, 0, p) by {}
                lemma_same_hits(s, xc, yc, n, y_line as int, 8, y_line + 1, 0);
            }
            y_line += 1;
        }
        assert forall|p: int| 0 <= p < SCREEN_SIZE implies #[trigger] hit_before(
            s,
            xc,
            yc,
            n,
            n as int,
            0,
            p,
        ) == draw_hits(s.ram, s.i, xc, yc, n, p) by {}
        proof {
            if flipped {
                let w = choose|p: int|
                    0 <= p < SCREEN_SIZE && #[trigger] hit_before(s, xc, yc, n, n as int, 0, p)
                        && s.screen[p];
                assert(draw_hits(s.ram, s.i, xc, yc, n, w));
            }
            if draw_collides(s, xc, yc, n) {
                let w = choose|p: int|
                    0 <= p < s.screen.len() && #[trigger] draw_hits(s.ram, s.i, xc, yc, n, p)
                        && s.screen[p];
                assert(hit_before(s, xc, yc, n, n as int, 0, w));
            }
        }
        self.v_reg[15] = if flipped { 1 } else { 0 };
        assert(self.screen@ =~= drawn_screen(s, xc, yc, n));
        assert(flipped == draw_collides(s, xc, yc, n));
        assert(self@ =~= spec_execute(s, Instruction::Draw { x, y, n }, 0));
    }

    /// FX0A: stores the lowest held key in Vx, or, with no key held, moves
    /// `pc` back so that the instruction runs again.
    fn wait_key(&mut self, x: u8)
        requires
            x < 16,
            any_key_pressed(old(self)@.keys) || old(self).pc >= 2,
        ensures
            final(self)@ == spec_execute(old(self)@, Instruction::WaitKey { x }, 0),
    {
        let ghost s = self@;
        let mut pressed = false;
        let mut k: usize = 0;
        while !pressed && k < NUM_KEYS
            invariant
                well_formed(s),
                x < 16,
                k <= NUM_KEYS,
                pressed ==> k >= 1 && is_lowest_pressed(s.keys, k - 1) && self@ == (EmuView {
                    v: s.v.update(x as int, (k - 1) as u8),
                    ..s
                }),
                !pressed ==> (forall|j: int| 0 <= j < k ==> !#[trigger] s.keys[j]) && self@ == s,
            decreases NUM_KEYS - k,
        {
            if self.keys[k] {
                self.v_reg[x as usize] = k as u8;
                pressed = true;
            }
            k += 1;
        }
        if !pressed {
            assert(!any_key_pressed(s.keys));
            self.pc -= 2;
        } else {
            assert(any_key_pressed(s.keys)) by {
                assert(s.keys[k - 1]);
            }
            let ghost low = lowest_pressed(s.keys);
            assert(is_lowest_pressed(s.keys, low));
            assert(low == k - 1) by {
                if low < k - 1 {
                    assert(s.keys[low]);
                } else if low > k - 1 {
                    assert(s.keys[k - 1]);
                }
            }
        }
        assert(self@ =~= spec_execute(s, Instruction::WaitKey { x }, 0));
    }

    /// FX33: stores the hundreds, tens and ones digits of Vx at I, I+1, I+2.
    fn store_bcd(&mut self, x: u8)
        requires
            x < 16,
            old(self).i_reg + 2 < RAM_SIZE,
        ensures
            final(self)@ == spec_execute(old(self)@, Instruction::Bcd { x }, 0),
    {
        let vx = self.v_reg[x as usize];
        let hundreds = vx / 100;
        let tens = (vx / 10) % 10;
        let ones = vx % 10;
        let i = self.i_reg as usize;
        self.ram[i] = hundreds;
        self.ram[i + 1] = tens;
        self.ram[i + 2] = ones;
        assert(self@ =~= spec_execute(old(self)@, Instruction::Bcd { x }, 0));
    }

    /// FX55: stores V0 to Vx in memory from I onward.
    fn store_regs(&mut self, x: u8)
        requires
            x < 16,
            old(self).i_reg + x < RAM_SIZE,
        ensures
            final(self)@ == spec_execute(old(self)@, Instruction::StoreRegs { x }, 0),
    {
        let ghost s = self@;
        let x = x as usize;
        let i = self.i_reg as usize;
        let mut idx: usize = 0;
        while idx <= x
            invariant
                well_formed(s),
                x < 16,
                i == s.i,
                i + x < RAM_SIZE,
                idx <= x + 1,
                self@ == (EmuView { ram: self@.ram, ..s }),
                forall|a: int|
                    0 <= a < RAM_SIZE ==> #[trigger] self.ram@[a] == if i <= a < i + idx {
                        s.v[a - i]
                    } else {
                        s.ram[a]
                    },
            decreases x + 1 - idx,
        {
            self.ram[i + idx] = self.v_reg[idx];
            idx += 1;
        }
        assert(self@ =~= spec_execute(s, Instruction::StoreRegs { x: x as u8 }, 0));
    }

    /// FX65: loads V0 to Vx from memory from I onward.
    fn load_regs(&mut self, x: u8)
        requires
            x < 16,
            old(self).i_reg + x < RAM_SIZE,
        ensures
            final(self)@ == spec_execute(old(self)@, Instruction::LoadRegs { x }, 0),
    {
        let ghost s = self@;
        let x = x as usize;
        let i = self.i_reg as usize;
        let mut idx: usize = 0;
        while idx <= x
            invariant
                well_formed(s),
                x < 16,
                i == s.i,
                i + x < RAM_SIZE,
                idx <= x + 1,
                self@ == (EmuView { v: self@.v, ..s }),
                forall|k: int|
                    0 <= k < NUM_REGS ==> #[trigger] self.v_reg@[k] == if k < idx {
                        s.ram[i + k]
                    } else {
                        s.v[k]
                    },
            decreases x + 1 - idx,
        {
            self.v_reg[idx] = self.ram[i + idx];
            idx += 1;
        }
        assert(self@ =~= spec_execute(s, Instruction::LoadRegs { x: x as u8 }, 0));
    }

    /// Executes a control-flow instruction: jumps, calls, returns, skips, and
    /// the two that touch neither registers nor memory.
    #[verifier::spinoff_prover]
    fn execute_flow(&mut self, ins: Instruction, rnd: u8)
        requires
            ins is Nop || ins is ClearScreen || ins is Return || ins is Jump || ins is Call || ins is JumpOffset || ins is SetIndex || ins is SkipEqImm || ins is SkipNeImm || ins is SkipEqReg || ins is SkipNeReg || ins is SkipKey || ins is SkipNoKey,
            operands_in_range(ins),
            exec_ok(old(self)@, ins),
        ensures
            final(self)@ == spec_execute(old(self)@, ins, rnd),
    {
        let ghost s = self@;
        match ins {
            Instruction::Nop => {
                assert(self@ =~= spec_execute(s, ins, rnd));
                assert(self@ =~= spec_execute(s, ins, rnd));
            },
            Instruction::ClearScreen => {
                self.screen = [false; SCREEN_SIZE];
                assert(self@ =~= spec_execute(s, ins, rnd));
            },
            Instruction::Return => {
                let ret_addr = self.pop();
                self.pc = ret_addr;
                assert(self@ =~= spec_execute(s, ins, rnd));
            },
            Instruction::Jump { addr } => {
                self.pc = addr;
                assert(self@ =~= spec_execute(s, ins, rnd));
            },
            Instruction::Call { addr } => {
                let pc = self.pc;
                self.push(pc);
                self.pc = addr;
                assert(self@ =~= spec_execute(s, ins, rnd));
            },
            Instruction::JumpOffset { addr } => {
                self.pc = (self.v_reg[0] as u16) + addr;
                assert(self@ =~= spec_execute(s, ins, rnd));
            },
            Instruction::SetIndex { addr } => {
                self.i_reg = addr;
                assert(self@ =~= spec_execute(s, ins, rnd));
            },
            Instruction::SkipEqImm { x, nn } => {
                if self.v_reg[x as usize] == nn {
                    self.pc += 2;
                }
                assert(self@ =~= spec_execute(s, ins, rnd));
            },
            Instruction::SkipNeImm { x, nn } => {
                if self.v_reg[x as usize] != nn {
                    self.pc += 2;
                }
                assert(self@ =~= spec_execute(s, ins, rnd));
            },
            Instruction::SkipEqReg { x, y } => {
                if self.v_reg[x as usize] == self.v_reg[y as usize] {
                    self.pc += 2;
                }
                assert(self@ =~= spec_execute(s, ins, rnd));
            },
            Instruction::SkipNeReg { x, y } => {
                if self.v_reg[x as usize] != self.v_reg[y as usize] {
                    self.pc += 2;
                }
                assert(self@ =~= spec_execute(s, ins, rnd));
            },
            Instruction::SkipKey { x } => {
                let vx = self.v_reg[x as usize];
                if self.keys[vx as usize] {
                    self.pc += 2;
                }
                assert(self@ =~= spec_execute(s, ins, rnd));
            },
            Instruction::SkipNoKey { x } => {
                let vx = self.v_reg[x as usize];
                if !self.keys[vx as usize] {
                    self.pc += 2;
                }
                assert(self@ =~= spec_execute(s, ins, rnd));
            },
            _ => {},
        }
    }

    /// Executes a register move, a bitwise instruction or `Random`.
    #[verifier::spinoff_prover]
    fn execute_logic(&mut self, ins: Instruction, rnd: u8)
        requires
            ins is SetImm || ins is SetReg || ins is Or || ins is And || ins is Xor || ins is Random,
            operands_in_range(ins),
            exec_ok(old(self)@, ins),
        ensures
            final(self)@ == spec_execute(old(self)@, ins, rnd),
    {
        let ghost s = self@;
        match ins {
            Instruction::SetImm { x, nn } => {
                self.v_reg[x as usize] = nn;
                assert(self@ =~= spec_execute(s, ins, rnd));
            },
            Instruction::SetReg { x, y } => {
                self.v_reg[x as usize] = self.v_reg[y as usize];
                assert(self@ =~= spec_execute(s, ins, rnd));
            },
            Instruction::Or { x, y } => {
                self.v_reg[x as usize] = self.v_reg[x as usize] | self.v_reg[y as usize];
                assert(self@ =~= spec_execute(s, ins, rnd));
            },
            Instruction::And { x, y } => {
                self.v_reg[x as usize] = self.v_reg[x as usize] & self.v_reg[y as usize];
                assert(self@ =~= spec_execute(s, ins, rnd));
            },
            Instruction::Xor { x, y } => {
                self.v_reg[x as usize] = self.v_reg[x as usize] ^ self.v_reg[y as usize];
                assert(self@ =~= spec_execute(s, ins, rnd));
            },
            Instruction::Random { x, nn } => {
                self.v_reg[x as usize] = rnd & nn;
                assert(self@ =~= spec_execute(s, ins, rnd));
            },
            _ => {},
        }
    }

    /// Executes an addition or subtraction on registers.
    #[verifier::spinoff_prover]
    fn execute_arith(&mut self, ins: Instruction, rnd: u8)
        requires
            ins is AddImm || ins is AddReg || ins is SubReg || ins is SubRev,
            operands_in_range(ins),
            exec_ok(old(self)@, ins),
        ensures
            final(self)@ == spec_execute(old(self)@, ins, rnd),
    {
        let ghost s = self@;
        match ins {
            Instruction::AddImm { x, nn } => {
                proof {
                    lemma_wrapping(s.v[x as int], nn, s.i);
                }
                self.v_reg[x as usize] = self.v_reg[x as usize].wrapping_add(nn);
                assert(self@ =~= spec_execute(s, ins, rnd));
            },
            Instruction::AddReg { x, y } => {
                proof {
                    lemma_wrapping(s.v[x as int], s.v[y as int], s.i);
                }
                let vx = self.v_reg[x as usize];
                let vy = self.v_reg[y as usize];
                let new_vx = vx.wrapping_add(vy);
                let carry = vx as u16 + vy as u16 > 255;
                let new_vf = if carry { 1 } else { 0 };
                self.v_reg[x as usize] = new_vx;
                self.v_reg[15] = new_vf;
                assert(self@ =~= spec_execute(s, ins, rnd));
            },
            Instruction::SubReg { x, y } => {
                proof {
                    lemma_wrapping(s.v[x as int], s.v[y as int], s.i);
                }
                let vx = self.v_reg[x as usize];
                let vy = self.v_reg[y as usize];
                let new_vx = vx.wrapping_sub(vy);
                let borrow = vx < vy;
                let new_vf = if borrow { 0 } else { 1 };
                self.v_reg[x as usize] = new_vx;
                self.v_reg[15] = new_vf;
                assert(self@ =~= spec_execute(s, ins, rnd));
            },
            Instruction::SubRev { x, y } => {
                proof {
                    lemma_wrapping(s.v[x as int], s.v[y as int], s.i);
                }
                let vx = self.v_reg[x as usize];
                let vy = self.v_reg[y as usize];
                let new_vx = vy.wrapping_sub(vx);
                let borrow = vy < vx;
                let new_vf = if borrow { 0 } else { 1 };
                self.v_reg[x as usize] = new_vx;
                self.v_reg[15] = new_vf;
                assert(self@ =~= spec_execute(s, ins, rnd));
            },
            _ => {},
        }
    }

    /// Executes a shift of a register by one bit.
    #[verifier::spinoff_prover]
    fn execute_shift(&mut self, ins: Instruction, rnd: u8)
        requires
            ins is ShiftRight || ins is ShiftLeft,
            operands_in_range(ins),
            exec_ok(old(self)@, ins),
        ensures
            final(self)@ == spec_execute(old(self)@, ins, rnd),
    {
        let ghost s = self@;
        match ins {
            Instruction::ShiftRight { x } => {
                proof {
                    lemma_shifts(s.v[x as int]);
                }
                let lsb = self.v_reg[x as usize] & 1;
                self.v_reg[x as usize] = self.v_reg[x as usize] >> 1;
                self.v_reg[15] = lsb;
                assert(self@ =~= spec_execute(s, ins, rnd));
            },
            Instruction::ShiftLeft { x } => {
                proof {
                    lemma_shifts(s.v[x as int]);
                }
                let msb = (self.v_reg[x as usize] >> 7) & 1;
                self.v_reg[x as usize] = self.v_reg[x as usize] << 1;
                self.v_reg[15] = msb;
                assert(self@ =~= spec_execute(s, ins, rnd));
            },
            _ => {},
        }
    }

    /// Executes a drawing, timer, keypad, index or memory instruction.
    #[verifier::spinoff_prover]
    fn execute_misc(&mut self, ins: Instruction, rnd: u8)
        requires
            ins is Draw || ins is GetDelay || ins is WaitKey || ins is SetDelay || ins is SetSound || ins is AddIndex || ins is FontChar || ins is Bcd || ins is StoreRegs || ins is LoadRegs,
            operands_in_range(ins),
            exec_ok(old(self)@, ins),
        ensures
            final(self)@ == spec_execute(old(self)@, ins, rnd),
    {
        let ghost s = self@;
        match ins {
            Instruction::Draw { x, y, n } => {
                self.draw(x, y, n);
                assert(self@ =~= spec_execute(s, ins, rnd));
            },
            Instruction::GetDelay { x } => {
                self.v_reg[x as usize] = self.dt;
                assert(self@ =~= spec_execute(s, ins, rnd));
            },
            Instruction::WaitKey { x } => {
                self.wait_key(x);
                assert(self@ =~= spec_execute(s, ins, rnd));
            },
            Instruction::SetDelay { x } => {
                self.dt = self.v_reg[x as usize];
                assert(self@ =~= spec_execute(s, ins, rnd));
            },
            Instruction::SetSound { x } => {
                self.st = self.v_reg[x as usize];
                assert(self@ =~= spec_execute(s, ins, rnd));
            },
            Instruction::AddIndex { x } => {
                proof {
                    lemma_wrapping(s.v[x as int], 0, s.i);
                }
                let vx = self.v_reg[x as usize] as u16;
                self.i_reg = self.i_reg.wrapping_add(vx);
                assert(self@ =~= spec_execute(s, ins, rnd));
            },
            Instruction::FontChar { x } => {
                let c = self.v_reg[x as usize] as u16;
                self.i_reg = c * 5;
                assert(self@ =~= spec_execute(s, ins, rnd));
            },
            Instruction::Bcd { x } => {
                self.store_bcd(x);
                assert(self@ =~= spec_execute(s, ins, rnd));
            },
            Instruction::StoreRegs { x } => {
                self.store_regs(x);
                assert(self@ =~= spec_execute(s, ins, rnd));
            },
            Instruction::LoadRegs { x } => {
                self.load_regs(x);
                assert(self@ =~= spec_execute(s, ins, rnd));
            },
            _ => {},
        }
    }

    /// Executes one decoded instruction; `rnd` is the byte that `Random`
    /// masks with NN.
    pub fn execute_instruction(&mut self, ins: Instruction, rnd: u8)
        requires
            operands_in_range(ins),
            exec_ok(old(self)@, ins),
        ensures
            final(self)@ == spec_execute(old(self)@, ins, rnd),
    {
        match ins {
            Instruction::Nop | Instruction::ClearScreen | Instruction::Return
            | Instruction::Jump { .. } | Instruction::Call { .. } | Instruction::JumpOffset { .. }
            | Instruction::SetIndex { .. } | Instruction::SkipEqImm { .. }
            | Instruction::SkipNeImm { .. } | Instruction::SkipEqReg { .. }
            | Instruction::SkipNeReg { .. } | Instruction::SkipKey { .. }
            | Instruction::SkipNoKey { .. } => self.execute_flow(ins, rnd),
            Instruction::SetImm { .. } | Instruction::SetReg { .. } | Instruction::Or { .. }
            | Instruction::And { .. } | Instruction::Xor { .. } | Instruction::Random { .. } => self
                .execute_logic(ins, rnd),
            Instruction::AddImm { .. } | Instruction::AddReg { .. } | Instruction::SubReg { .. }
            | Instruction::SubRev { .. } => self.execute_arith(ins, rnd),
            Instruction::ShiftRight { .. } | Instruction::ShiftLeft { .. } => self.execute_shift(
                ins,
                rnd,
            ),
            _ => self.execute_misc(ins, rnd),
        }
    }

    /// Executes an opcode, drawing a random byte for CXNN.
    fn execute(&mut self, op: u16)
        requires
            spec_decode(op) is Some,
            exec_ok(old(self)@, spec_decode(op).unwrap()),
        ensures
            exists|rnd: u8| final(self)@ == spec_execute(old(self)@, spec_decode(op).unwrap(), rnd),
            !(spec_decode(op).unwrap() is Random) ==> final(self)@ == spec_execute(
                old(self)@,
                spec_decode(op).unwrap(),
                0,
            ),
    {
        proof {
            lemma_decode_in_range(op);
        }
        match decode(op) {
            Some(ins) => {
                let rnd = match ins {
                    Instruction::Random { .. } => random_byte(),
                    _ => 0,
                };
                self.execute_instruction(ins, rnd);
            },
            None => {},
        }
    }

    /// Runs one fetch-and-execute cycle.
    pub fn tick(&mut self)
        requires
            tick_ok(old(self)@),
        ensures
            exists|rnd: u8| final(self)@ == spec_tick(old(self)@, rnd),
            !(spec_decode(fetched_op(old(self)@)).unwrap() is Random) ==> final(self)@ == spec_tick(
                old(self)@,
                0,
            ),
    {
        let op = self.fetch();
        let ghost fetched = self@;
        self.execute(op);
        proof {
            let w = choose|rnd: u8|
                self@ == spec_execute(fetched, spec_decode(op).unwrap(), rnd);
            assert(self@ == spec_tick(old(self)@, w));
        }
    }

    /// Returns the machine to the state of a new one.
    pub fn reset(&mut self)
        ensures
            final(self)@ == initial_view(),
    {
        self.pc = START_ADDR;
        self.ram = fresh_ram();
        self.screen = [false; SCREEN_SIZE];
        self.v_reg = [0u8; NUM_REGS];
        self.i_reg = 0;
        self.sp = 0;
        self.stack = [0u16; STACK_SIZE];
        self.keys = [false; NUM_KEYS];
        self.dt = 0;
        self.st = 0;
        assert(self@ =~= initial_view());
    }

    /// Counts both timers down by one, stopping at zero.
    pub fn tick_timers(&mut self)
        ensures
            final(self)@ == spec_tick_timers(old(self)@),
    {
        if self.dt > 0 {
            self.dt -= 1;
        }
        if self.st > 0 {
            if self.st == 1 {
                // the beep ends here
            }
            self.st -= 1;
        }
        assert(self@ =~= spec_tick_timers(old(self)@));
    }
}

} // verus!
