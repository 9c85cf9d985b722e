use chip8emu::emu::decode;
use chip8emu::{Emu, Instruction, FONTSET, SCREEN_HEIGHT, SCREEN_WIDTH, START_ADDR};

fn run(program: &[u8], ticks: usize) -> Emu {
    let mut emu = Emu::new();
    emu.load(program);
    for _ in 0..ticks {
        assert!(emu.can_tick());
        emu.tick();
    }
    emu
}

fn lit(emu: &Emu, x: usize, y: usize) -> bool {
    emu.get_display()[x + SCREEN_WIDTH * y]
}

#[test]
fn new_machine_state() {
    let emu = Emu::new();
    assert_eq!(emu.get_pc(), 0x200);
    assert_eq!(emu.get_i(), 0);
    assert_eq!(emu.get_sp(), 0);
    assert_eq!(emu.get_delay_timer(), 0);
    assert_eq!(emu.get_sound_timer(), 0);
    for a in 0..FONTSET.len() {
        assert_eq!(emu.get_ram(a), FONTSET[a]);
    }
    assert_eq!(emu.get_ram(80), 0);
    assert_eq!(emu.get_ram(4095), 0);
    assert_eq!(emu.get_display().len(), SCREEN_WIDTH * SCREEN_HEIGHT);
    assert!(emu.get_display().iter().all(|p| !*p));
    for x in 0..16 {
        assert_eq!(emu.get_v(x), 0);
    }
}

#[test]
fn load_places_program_at_start() {
    let mut emu = Emu::new();
    emu.load(&[0xAB, 0xCD, 0xEF]);
    assert_eq!(emu.get_ram(0x1FF), 0);
    assert_eq!(emu.get_ram(0x200), 0xAB);
    assert_eq!(emu.get_ram(0x201), 0xCD);
    assert_eq!(emu.get_ram(0x202), 0xEF);
    assert_eq!(emu.get_ram(0x203), 0);
}

#[test]
fn load_fills_all_of_memory() {
    let mut emu = Emu::new();
    let data = vec![7u8; 4096 - 0x200];
    emu.load(&data);
    assert_eq!(emu.get_ram(4095), 7);
    assert_eq!(emu.get_ram(0x200), 7);
}

#[test]
fn set_and_add_immediate() {
    let emu = run(&[0x60, 0x05, 0x70, 0x03, 0x71, 0xFF, 0x71, 0x02], 4);
    assert_eq!(emu.get_v(0), 8);
    // 7XNN wraps and leaves VF alone
    assert_eq!(emu.get_v(1), 1);
    assert_eq!(emu.get_v(15), 0);
    assert_eq!(emu.get_pc(), 0x208);
}

#[test]
fn add_registers_with_carry() {
    let emu = run(&[0x61, 200, 0x62, 100, 0x81, 0x24], 3);
    assert_eq!(emu.get_v(1), 44);
    assert_eq!(emu.get_v(15), 1);
    let emu = run(&[0x61, 100, 0x62, 100, 0x81, 0x24], 3);
    assert_eq!(emu.get_v(1), 200);
    assert_eq!(emu.get_v(15), 0);
}

#[test]
fn subtract_registers_with_borrow() {
    let emu = run(&[0x61, 10, 0x62, 20, 0x81, 0x25], 3);
    assert_eq!(emu.get_v(1), 246);
    assert_eq!(emu.get_v(15), 0);
    let emu = run(&[0x61, 20, 0x62, 10, 0x81, 0x25], 3);
    assert_eq!(emu.get_v(1), 10);
    assert_eq!(emu.get_v(15), 1);
    let emu = run(&[0x61, 20, 0x62, 10, 0x81, 0x27], 3);
    assert_eq!(emu.get_v(1), 246);
    assert_eq!(emu.get_v(15), 0);
    let emu = run(&[0x61, 10, 0x62, 10, 0x81, 0x27], 3);
    assert_eq!(emu.get_v(1), 0);
    assert_eq!(emu.get_v(15), 1);
}

#[test]
fn carry_into_vf_itself() {
    // with x = F the flag overwrites the sum
    let emu = run(&[0x6F, 200, 0x62, 100, 0x8F, 0x24], 3);
    assert_eq!(emu.get_v(15), 1);
}

#[test]
fn bitwise_and_moves() {
    let emu = run(&[0x61, 0b1100, 0x62, 0b1010, 0x83, 0x10, 0x83, 0x21], 4);
    assert_eq!(emu.get_v(3), 0b1110);
    let emu = run(&[0x61, 0b1100, 0x62, 0b1010, 0x81, 0x22], 3);
    assert_eq!(emu.get_v(1), 0b1000);
    let emu = run(&[0x61, 0b1100, 0x62, 0b1010, 0x81, 0x23], 3);
    assert_eq!(emu.get_v(1), 0b0110);
}

#[test]
fn shifts_report_the_bit_shifted_out() {
    let emu = run(&[0x61, 0b1000_0011, 0x81, 0x06], 2);
    assert_eq!(emu.get_v(1), 0b0100_0001);
    assert_eq!(emu.get_v(15), 1);
    let emu = run(&[0x61, 0b1000_0010, 0x81, 0x0E], 2);
    assert_eq!(emu.get_v(1), 0b0000_0100);
    assert_eq!(emu.get_v(15), 1);
    let emu = run(&[0x61, 0b0100_0010, 0x81, 0x0E], 2);
    assert_eq!(emu.get_v(1), 0b1000_0100);
    assert_eq!(emu.get_v(15), 0);
}

#[test]
fn jumps() {
    let emu = run(&[0x13, 0x45], 1);
    assert_eq!(emu.get_pc(), 0x345);
    let emu = run(&[0x60, 0x10, 0xB3, 0x00], 2);
    assert_eq!(emu.get_pc(), 0x310);
}

#[test]
fn call_then_return_resumes_after_the_call() {
    let mut program = vec![0u8; 0x102];
    program[0] = 0x23; // 2300: call 0x300
    program[1] = 0x00;
    program[0x100] = 0x00; // 00EE at 0x300
    program[0x101] = 0xEE;
    let mut emu = run(&program, 1);
    assert_eq!(emu.get_pc(), 0x300);
    assert_eq!(emu.get_sp(), 1);
    emu.tick();
    assert_eq!(emu.get_pc(), 0x202);
    assert_eq!(emu.get_sp(), 0);
}

#[test]
fn skips() {
    // 3XNN taken / not taken
    assert_eq!(run(&[0x61, 5, 0x31, 5], 2).get_pc(), 0x206);
    assert_eq!(run(&[0x61, 5, 0x31, 6], 2).get_pc(), 0x204);
    // 4XNN
    assert_eq!(run(&[0x61, 5, 0x41, 6], 2).get_pc(), 0x206);
    assert_eq!(run(&[0x61, 5, 0x41, 5], 2).get_pc(), 0x204);
    // 5XY0 and 9XY0
    assert_eq!(run(&[0x61, 5, 0x62, 5, 0x51, 0x20], 3).get_pc(), 0x208);
    assert_eq!(run(&[0x61, 5, 0x62, 5, 0x91, 0x20], 3).get_pc(), 0x206);
    assert_eq!(run(&[0x61, 5, 0x62, 4, 0x91, 0x20], 3).get_pc(), 0x208);
}

#[test]
fn draw_font_digit_and_erase_it() {
    // I = 0 (glyph of 0), draw 5 rows at (V0, V1) = (0, 0), twice
    let mut emu = run(&[0xA0, 0x00, 0xD0, 0x15], 2);
    assert_eq!(emu.get_v(15), 0);
    // first row F0: four lit pixels
    assert!(lit(&emu, 0, 0) && lit(&emu, 1, 0) && lit(&emu, 2, 0) && lit(&emu, 3, 0));
    assert!(!lit(&emu, 4, 0));
    // second row 90: pixels 0 and 3
    assert!(lit(&emu, 0, 1) && !lit(&emu, 1, 1) && !lit(&emu, 2, 1) && lit(&emu, 3, 1));
    let count = emu.get_display().iter().filter(|p| **p).count();
    assert_eq!(count, 4 + 2 + 2 + 2 + 4);
    // draw the same sprite again: everything goes dark and VF reports it
    emu.execute_instruction(Instruction::Draw { x: 0, y: 1, n: 5 }, 0);
    assert_eq!(emu.get_v(15), 1);
    assert!(emu.get_display().iter().all(|p| !*p));
}

#[test]
fn draw_wraps_around_the_edges() {
    // V0 = 62, V1 = 31, I = 0x20A (the byte FF after the program)
    let emu = run(&[0x60, 62, 0x61, 31, 0xA2, 0x0A, 0xD0, 0x12, 0x00, 0x00, 0xFF, 0x81], 4);
    // row 0 at y = 31: x = 62, 63, 0..5
    assert!(lit(&emu, 62, 31) && lit(&emu, 63, 31) && lit(&emu, 0, 31) && lit(&emu, 5, 31));
    assert!(!lit(&emu, 6, 31));
    // row 1 (0x81) wraps to y = 0: columns 0 and 7 -> x = 62 and 5
    assert!(lit(&emu, 62, 0) && lit(&emu, 5, 0));
    assert!(!lit(&emu, 63, 0));
    assert_eq!(emu.get_v(15), 0);
}

#[test]
fn draw_with_zero_rows_draws_nothing() {
    let emu = run(&[0xD0, 0x10], 1);
    assert!(emu.get_display().iter().all(|p| !*p));
    assert_eq!(emu.get_v(15), 0);
}

#[test]
fn clear_screen() {
    let emu = run(&[0xA0, 0x00, 0xD0, 0x15, 0x00, 0xE0], 3);
    assert!(emu.get_display().iter().all(|p| !*p));
}

#[test]
fn binary_coded_decimal() {
    let emu = run(&[0x65, 254, 0xA3, 0x00, 0xF5, 0x33], 3);
    assert_eq!(emu.get_ram(0x300), 2);
    assert_eq!(emu.get_ram(0x301), 5);
    assert_eq!(emu.get_ram(0x302), 4);
    let emu = run(&[0x65, 7, 0xA3, 0x00, 0xF5, 0x33], 3);
    assert_eq!(emu.get_ram(0x300), 0);
    assert_eq!(emu.get_ram(0x301), 0);
    assert_eq!(emu.get_ram(0x302), 7);
}

#[test]
fn store_and_load_registers() {
    let program = [
        0x60, 1, 0x61, 2, 0x62, 3, 0x63, 4, // V0..V3 = 1..4
        0xA3, 0x00, 0xF2, 0x55, // store V0..V2 at 0x300
        0x60, 0, 0x61, 0, 0x62, 0, // clear V0..V2
        0xF1, 0x65, // load V0..V1
    ];
    let emu = run(&program, 10);
    assert_eq!(emu.get_ram(0x300), 1);
    assert_eq!(emu.get_ram(0x301), 2);
    assert_eq!(emu.get_ram(0x302), 3);
    assert_eq!(emu.get_ram(0x303), 0);
    assert_eq!(emu.get_v(0), 1);
    assert_eq!(emu.get_v(1), 2);
    assert_eq!(emu.get_v(2), 0);
    assert_eq!(emu.get_v(3), 4);
    assert_eq!(emu.get_i(), 0x300);
}

#[test]
fn wait_for_key() {
    let mut emu = run(&[0xF3, 0x0A], 1);
    // no key: the instruction repeats
    assert_eq!(emu.get_pc(), 0x200);
    emu.keypress(9, true);
    emu.keypress(7, true);
    emu.tick();
    assert_eq!(emu.get_v(3), 7);
    assert_eq!(emu.get_pc(), 0x202);
}

#[test]
fn skip_on_key() {
    let mut emu = Emu::new();
    emu.load(&[0x61, 0x0C, 0xE1, 0x9E]);
    emu.keypress(0xC, true);
    emu.tick();
    emu.tick();
    assert_eq!(emu.get_pc(), 0x206);
    let emu = run(&[0x61, 0x0C, 0xE1, 0x9E], 2);
    assert_eq!(emu.get_pc(), 0x204);
    let emu = run(&[0x61, 0x0C, 0xE1, 0xA1], 2);
    assert_eq!(emu.get_pc(), 0x206);
}

#[test]
fn timers() {
    let mut emu = run(&[0x61, 2, 0xF1, 0x15, 0xF1, 0x18, 0xF2, 0x07], 4);
    assert_eq!(emu.get_delay_timer(), 2);
    assert_eq!(emu.get_sound_timer(), 2);
    assert_eq!(emu.get_v(2), 2);
    emu.tick_timers();
    assert_eq!(emu.get_delay_timer(), 1);
    assert_eq!(emu.get_sound_timer(), 1);
    emu.tick_timers();
    emu.tick_timers();
    assert_eq!(emu.get_delay_timer(), 0);
    assert_eq!(emu.get_sound_timer(), 0);
}

#[test]
fn index_register() {
    let emu = run(&[0xAF, 0xFF, 0x61, 0x02, 0xF1, 0x1E], 3);
    assert_eq!(emu.get_i(), 0x1001);
    let emu = run(&[0x61, 0x0A, 0xF1, 0x29], 2);
    assert_eq!(emu.get_i(), 50);
}

#[test]
fn index_register_wraps() {
    let mut emu = Emu::new();
    emu.execute_instruction(Instruction::SetIndex { addr: 0xFFF }, 0);
    emu.execute_instruction(Instruction::SetImm { x: 1, nn: 0xFF }, 0);
    for _ in 0..0xF1 {
        emu.execute_instruction(Instruction::AddIndex { x: 1 }, 0);
    }
    // 0xFFF + 0xF1 * 0xFF = 0xFFFF + 0xF01 - 0x1000 + 1 wraps past 0xFFFF
    assert_eq!(emu.get_i(), ((0xFFFu32 + 0xF1 * 0xFF) % 0x10000) as u16);
}

#[test]
fn random_is_masked() {
    for _ in 0..50 {
        let emu = run(&[0xC1, 0x0F], 1);
        assert!(emu.get_v(1) <= 0x0F);
        let emu = run(&[0xC1, 0x00], 1);
        assert_eq!(emu.get_v(1), 0);
    }
    let mut emu = Emu::new();
    emu.execute_instruction(Instruction::Random { x: 4, nn: 0x0F }, 0xAB);
    assert_eq!(emu.get_v(4), 0x0B);
}

#[test]
fn reset_restores_new_state() {
    let mut emu = run(&[0x61, 2, 0xF1, 0x15, 0xA0, 0x00, 0xD0, 0x15, 0x23, 0x00], 5);
    emu.keypress(3, true);
    emu.reset();
    let fresh = Emu::new();
    assert_eq!(emu.get_pc(), fresh.get_pc());
    assert_eq!(emu.get_sp(), 0);
    assert_eq!(emu.get_i(), 0);
    assert_eq!(emu.get_delay_timer(), 0);
    assert_eq!(emu.get_v(1), 0);
    assert_eq!(emu.get_display(), fresh.get_display());
    for a in 0..4096 {
        assert_eq!(emu.get_ram(a), fresh.get_ram(a));
    }
    // the key was released by the reset
    emu.load(&[0xF0, 0x0A]);
    emu.tick();
    assert_eq!(emu.get_pc(), START_ADDR);
}

#[test]
fn decoding() {
    assert!(matches!(decode(0x0000), Some(Instruction::Nop)));
    assert!(matches!(decode(0x00E0), Some(Instruction::ClearScreen)));
    assert!(matches!(decode(0x00EE), Some(Instruction::Return)));
    assert!(matches!(decode(0x1ABC), Some(Instruction::Jump { addr: 0xABC })));
    assert!(matches!(decode(0xD12F), Some(Instruction::Draw { x: 1, y: 2, n: 0xF })));
    assert!(matches!(decode(0x8AB6), Some(Instruction::ShiftRight { x: 0xA })));
    assert!(matches!(decode(0xF765), Some(Instruction::LoadRegs { x: 7 })));
    assert!(decode(0x0123).is_none());
    assert!(decode(0x5121).is_none());
    assert!(decode(0x8128).is_none());
    assert!(decode(0xE1FF).is_none());
    assert!(decode(0xF1FF).is_none());
}

#[test]
fn faults_are_reported_before_they_happen() {
    // unimplemented opcode
    let mut emu = Emu::new();
    emu.load(&[0x01, 0x23]);
    assert!(!emu.can_tick());
    // return with an empty stack
    let mut emu = Emu::new();
    emu.load(&[0x00, 0xEE]);
    assert!(!emu.can_tick());
    assert!(!emu.can_execute(Instruction::Return));
    // key index out of range
    let mut emu = Emu::new();
    emu.load(&[0x61, 0x10, 0xE1, 0x9E]);
    emu.tick();
    assert!(!emu.can_tick());
    // program counter at the end of memory
    let mut emu = Emu::new();
    emu.load(&[0x1F, 0xFF]);
    emu.tick();
    assert_eq!(emu.get_pc(), 0xFFF);
    assert!(!emu.can_tick());
    // BCD past the end of memory
    let mut emu = Emu::new();
    emu.execute_instruction(Instruction::SetIndex { addr: 0xFFE }, 0);
    assert!(!emu.can_execute(Instruction::Bcd { x: 0 }));
    assert!(emu.can_execute(Instruction::StoreRegs { x: 1 }));
    assert!(!emu.can_execute(Instruction::StoreRegs { x: 2 }));
    // a call with a full stack
    let mut emu = Emu::new();
    for _ in 0..16 {
        assert!(emu.can_execute(Instruction::Call { addr: 0x200 }));
        emu.execute_instruction(Instruction::Call { addr: 0x200 }, 0);
    }
    assert!(!emu.can_execute(Instruction::Call { addr: 0x200 }));
    // waiting for a key at address 0 with no key held
    let mut emu = Emu::new();
    emu.execute_instruction(Instruction::Jump { addr: 0 }, 0);
    assert!(!emu.can_execute(Instruction::WaitKey { x: 0 }));
    emu.keypress(0, true);
    assert!(emu.any_key_held());
    assert!(emu.can_execute(Instruction::WaitKey { x: 0 }));
}

#[test]
fn keypad() {
    let mut emu = Emu::new();
    assert!(!emu.any_key_held());
    emu.keypress(15, true);
    assert!(emu.any_key_held());
    emu.keypress(15, false);
    assert!(!emu.any_key_held());
}

#[test]
fn font_char_points_at_glyph() {
    let emu = run(&[0x61, 0x0A, 0xF1, 0x29], 2);
    let i = emu.get_i() as usize;
    let glyph: Vec<u8> = (i..i + 5).map(|a| emu.get_ram(a)).collect();
    assert_eq!(glyph, vec![0xF0, 0x90, 0xF0, 0x90, 0x90]);
}
