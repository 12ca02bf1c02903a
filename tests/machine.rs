use chip8_interpreter::machine::Fault;
use chip8_interpreter::timers::FRAME_US;
use chip8_interpreter::{decode, Chip8, Op, RunState};

fn with_program(bytes: &[u8]) -> Chip8 {
    let mut c = Chip8::new();
    c.load_rom(&bytes.to_vec()).unwrap();
    c
}

fn run(c: &mut Chip8, cycles: usize) {
    for _ in 0..cycles {
        c.step(0).unwrap();
    }
}

fn lit_cells(c: &Chip8) -> usize {
    c.display.iter().filter(|b| **b).count()
}

#[test]
fn new_machine_layout() {
    let c = Chip8::new();
    assert_eq!(c.ram.len(), 0x1000);
    assert_eq!(c.pc, 0x200);
    assert_eq!(c.sp, 0);
    assert_eq!(&c.ram[0..5], &[0xF0, 0x90, 0x90, 0x90, 0xF0]);
    assert_eq!(&c.ram[75..80], &[0xF0, 0x80, 0xF0, 0x80, 0x80]);
    assert!(c.ram[80..].iter().all(|b| *b == 0));
    assert_eq!(lit_cells(&c), 0);
    assert_eq!(c.mode, RunState::Running);
}

#[test]
fn load_then_add_immediate() {
    let mut c = with_program(&[0x60, 0x0A, 0x70, 0x05]);
    run(&mut c, 2);
    assert_eq!(c.reg_v[0], 0x0F);
    assert_eq!(c.pc, 0x204);
}

#[test]
fn store_register_at_index() {
    let mut c = with_program(&[0xA2, 0x00, 0xF0, 0x55]);
    c.reg_v[0] = 0x99;
    run(&mut c, 2);
    assert_eq!(c.ram[0x200], 0x99);
    assert_eq!(c.reg_i, 0x200);
}

#[test]
fn key_wait_holds_pc_until_key_down() {
    let mut c = with_program(&[0xF3, 0x0A]);
    assert_eq!(c.step(0), Ok(Some(Op::LdVxK { x: 3 })));
    assert_eq!(c.mode, RunState::AwaitingKey(3));
    for _ in 0..5 {
        assert_eq!(c.step(0), Ok(None));
        assert_eq!(c.pc, 0x200);
    }
    let mut keys = vec![false; 16];
    keys[7] = true;
    c.set_keys(&keys);
    assert_eq!(c.step(0), Ok(None));
    assert_eq!(c.pc, 0x202);
    assert_eq!(c.reg_v[3], 7);
    assert_eq!(c.mode, RunState::Running);
}

#[test]
fn key_wait_needs_an_edge() {
    let mut c = with_program(&[0xF1, 0x0A]);
    let mut keys = vec![false; 16];
    keys[2] = true;
    c.set_keys(&keys);
    c.step(0).unwrap();
    // key 2 was already down when the wait began
    c.step(0).unwrap();
    assert_eq!(c.pc, 0x200);
    keys[9] = true;
    c.set_keys(&keys);
    c.step(0).unwrap();
    assert_eq!(c.pc, 0x202);
    assert_eq!(c.reg_v[1], 9);
}

#[test]
fn add_registers_with_and_without_carry() {
    let mut c = with_program(&[0x81, 0x24, 0x83, 0x44]);
    c.reg_v[1] = 200;
    c.reg_v[2] = 100;
    c.reg_v[3] = 20;
    c.reg_v[4] = 30;
    run(&mut c, 1);
    assert_eq!(c.reg_v[1], 44);
    assert_eq!(c.reg_v[15], 1);
    run(&mut c, 1);
    assert_eq!(c.reg_v[3], 50);
    assert_eq!(c.reg_v[15], 0);
}

#[test]
fn add_at_exact_byte_limit() {
    let mut c = with_program(&[0x81, 0x24]);
    c.reg_v[1] = 255;
    c.reg_v[2] = 0;
    run(&mut c, 1);
    assert_eq!(c.reg_v[1], 255);
    assert_eq!(c.reg_v[15], 0);
}

#[test]
fn sub_and_subn_flags() {
    let mut c = with_program(&[0x81, 0x25, 0x83, 0x45, 0x85, 0x67, 0x87, 0x87]);
    c.reg_v[1] = 10;
    c.reg_v[2] = 3;
    c.reg_v[3] = 3;
    c.reg_v[4] = 10;
    c.reg_v[5] = 3;
    c.reg_v[6] = 10;
    c.reg_v[7] = 5;
    c.reg_v[8] = 5;
    run(&mut c, 1);
    assert_eq!((c.reg_v[1], c.reg_v[15]), (7, 1));
    run(&mut c, 1);
    assert_eq!((c.reg_v[3], c.reg_v[15]), (249, 0));
    run(&mut c, 1);
    assert_eq!((c.reg_v[5], c.reg_v[15]), (7, 1));
    run(&mut c, 1);
    // equal operands: no borrow
    assert_eq!((c.reg_v[7], c.reg_v[15]), (0, 1));
}

#[test]
fn shifts_report_bit_shifted_out() {
    let mut c = with_program(&[0x81, 0x06, 0x82, 0x0E, 0x83, 0x06, 0x84, 0x0E]);
    c.reg_v[1] = 0b0000_0101;
    c.reg_v[2] = 0b1000_0001;
    c.reg_v[3] = 0b0000_0100;
    c.reg_v[4] = 0b0100_0000;
    run(&mut c, 1);
    assert_eq!((c.reg_v[1], c.reg_v[15]), (2, 1));
    run(&mut c, 1);
    assert_eq!((c.reg_v[2], c.reg_v[15]), (2, 1));
    run(&mut c, 1);
    assert_eq!((c.reg_v[3], c.reg_v[15]), (2, 0));
    run(&mut c, 1);
    assert_eq!((c.reg_v[4], c.reg_v[15]), (128, 0));
}

#[test]
fn bitwise_ops() {
    let mut c = with_program(&[0x81, 0x21, 0x83, 0x22, 0x85, 0x63, 0x87, 0x20]);
    c.reg_v[1] = 0b1100;
    c.reg_v[2] = 0b1010;
    c.reg_v[3] = 0b1100;
    c.reg_v[5] = 0b1100;
    c.reg_v[6] = 0b1010;
    run(&mut c, 4);
    assert_eq!(c.reg_v[1], 0b1110);
    assert_eq!(c.reg_v[3], 0b1000);
    assert_eq!(c.reg_v[5], 0b0110);
    assert_eq!(c.reg_v[7], 0b1010);
}

#[test]
fn add_immediate_wraps_without_flag() {
    let mut c = with_program(&[0x71, 0x10]);
    c.reg_v[1] = 0xF8;
    c.reg_v[15] = 7;
    run(&mut c, 1);
    assert_eq!(c.reg_v[1], 0x08);
    assert_eq!(c.reg_v[15], 7);
}

#[test]
fn draw_twice_restores_display() {
    // I := glyph of 0; draw at (62, 30) so it wraps on both axes; draw again
    let mut c = with_program(&[0xA0, 0x00, 0xD1, 0x25, 0xD1, 0x25]);
    c.reg_v[1] = 62;
    c.reg_v[2] = 30;
    run(&mut c, 2);
    assert_eq!(c.reg_v[15], 0);
    // glyph 0 has 4 + 2 + 2 + 2 + 4 lit pixels
    assert_eq!(lit_cells(&c), 14);
    assert!(c.pixel(62, 30));
    assert!(c.pixel(1, 30));
    assert!(c.pixel(62, 2));
    assert!(!c.pixel(2, 30));
    run(&mut c, 1);
    assert_eq!(c.reg_v[15], 1);
    assert_eq!(lit_cells(&c), 0);
}

#[test]
fn draw_over_unlit_cells_reports_no_collision() {
    let mut c = with_program(&[0xA0, 0x05, 0xD0, 0x01, 0xD0, 0x01]);
    run(&mut c, 2);
    // row 0 of glyph 1 is 0x20: one pixel at column 2
    assert_eq!(lit_cells(&c), 1);
    assert!(c.pixel(2, 0));
    assert_eq!(c.reg_v[15], 0);
    run(&mut c, 1);
    assert_eq!(c.reg_v[15], 1);
    assert_eq!(lit_cells(&c), 0);
}

#[test]
fn clear_screen_turns_everything_off() {
    let mut c = with_program(&[0xA0, 0x00, 0xD0, 0x05, 0x00, 0xE0]);
    run(&mut c, 2);
    assert!(lit_cells(&c) > 0);
    run(&mut c, 1);
    assert_eq!(lit_cells(&c), 0);
    assert_eq!(c.display.len(), 2048);
    assert_eq!(c.pc, 0x206);
}

#[test]
fn sixteen_calls_then_overflow() {
    // CALL 0x200: calls itself
    let mut c = with_program(&[0x22, 0x00]);
    for k in 0..16 {
        assert_eq!(c.step(0), Ok(Some(Op::Call { addr: 0x200 })));
        assert_eq!(c.sp as usize, k + 1);
        assert_eq!(c.stack[k], 0x202);
    }
    assert_eq!(c.step(0), Err(Fault::StackOverflow { addr: 0x200 }));
    assert_eq!(c.sp, 16);
}

#[test]
fn return_on_empty_stack_underflows() {
    let mut c = with_program(&[0x00, 0xEE]);
    assert_eq!(c.step(0), Err(Fault::StackUnderflow { addr: 0x200 }));
    assert_eq!(c.pc, 0x200);
}

#[test]
fn call_and_return() {
    // 0x200: CALL 0x206; 0x202: LD V1,1; 0x206: LD V2,2; RET
    let mut c = with_program(&[0x22, 0x06, 0x61, 0x01, 0x00, 0x00, 0x62, 0x02, 0x00, 0xEE]);
    run(&mut c, 1);
    assert_eq!(c.pc, 0x206);
    run(&mut c, 2);
    assert_eq!(c.pc, 0x202);
    assert_eq!(c.sp, 0);
    run(&mut c, 1);
    assert_eq!((c.reg_v[1], c.reg_v[2]), (1, 2));
}

#[test]
fn skips_move_pc_by_four_or_two() {
    let mut c = with_program(&[0x30, 0x05]);
    c.reg_v[0] = 5;
    run(&mut c, 1);
    assert_eq!(c.pc, 0x204);
    let mut c = with_program(&[0x30, 0x06]);
    c.reg_v[0] = 5;
    run(&mut c, 1);
    assert_eq!(c.pc, 0x202);
    let mut c = with_program(&[0x40, 0x06]);
    c.reg_v[0] = 5;
    run(&mut c, 1);
    assert_eq!(c.pc, 0x204);
    let mut c = with_program(&[0x50, 0x10]);
    c.reg_v[0] = 5;
    c.reg_v[1] = 5;
    run(&mut c, 1);
    assert_eq!(c.pc, 0x204);
    let mut c = with_program(&[0x90, 0x10]);
    c.reg_v[0] = 5;
    c.reg_v[1] = 5;
    run(&mut c, 1);
    assert_eq!(c.pc, 0x202);
}

#[test]
fn key_skips() {
    let mut c = with_program(&[0xE4, 0x9E, 0x00, 0x00, 0xE4, 0xA1]);
    c.reg_v[4] = 0x1A; // key A
    let mut keys = vec![false; 16];
    keys[0xA] = true;
    c.set_keys(&keys);
    run(&mut c, 1);
    assert_eq!(c.pc, 0x204);
    run(&mut c, 1);
    assert_eq!(c.pc, 0x206);
}

#[test]
fn jumps_set_pc_directly() {
    let mut c = with_program(&[0x13, 0x45]);
    run(&mut c, 1);
    assert_eq!(c.pc, 0x345);
    let mut c = with_program(&[0xB3, 0x00]);
    c.reg_v[0] = 0x10;
    run(&mut c, 1);
    assert_eq!(c.pc, 0x310);
}

#[test]
fn offset_jump_past_memory_faults() {
    let mut c = with_program(&[0xBF, 0xFF]);
    c.reg_v[0] = 1;
    assert_eq!(c.step(0), Err(Fault::OutOfBounds { addr: 0x1000 }));
    assert_eq!(c.pc, 0x200);
}

#[test]
fn pc_past_memory_faults() {
    let mut c = Chip8::new();
    c.pc = 0xFFF;
    assert_eq!(c.step(0), Err(Fault::OutOfBounds { addr: 0xFFF }));
}

#[test]
fn bcd_and_font_address() {
    let mut c = with_program(&[0xA3, 0x00, 0xF5, 0x33, 0xF6, 0x29]);
    c.reg_v[5] = 234;
    c.reg_v[6] = 0x1A;
    run(&mut c, 2);
    assert_eq!(&c.ram[0x300..0x303], &[2, 3, 4]);
    run(&mut c, 1);
    assert_eq!(c.reg_i, 50);
}

#[test]
fn bcd_past_memory_faults() {
    let mut c = with_program(&[0xAF, 0xFE, 0xF0, 0x33]);
    run(&mut c, 1);
    assert_eq!(c.step(0), Err(Fault::OutOfBounds { addr: 0x1000 }));
}

#[test]
fn store_and_load_register_block() {
    let mut c = with_program(&[0xA4, 0x00, 0xF3, 0x55, 0xA4, 0x01, 0xF1, 0x65]);
    c.reg_v[0] = 1;
    c.reg_v[1] = 2;
    c.reg_v[2] = 3;
    c.reg_v[3] = 4;
    c.reg_v[4] = 5;
    run(&mut c, 2);
    assert_eq!(&c.ram[0x400..0x405], &[1, 2, 3, 4, 0]);
    run(&mut c, 2);
    assert_eq!(&c.reg_v[0..3], &[2, 3, 3]);
}

#[test]
fn add_to_index_wraps_at_twelve_bits() {
    let mut c = with_program(&[0xAF, 0xFF, 0xF0, 0x1E]);
    c.reg_v[0] = 2;
    run(&mut c, 2);
    assert_eq!(c.reg_i, 0x001);
}

#[test]
fn timer_registers() {
    let mut c = with_program(&[0xF1, 0x15, 0xF2, 0x18, 0xF3, 0x07]);
    c.reg_v[1] = 9;
    c.reg_v[2] = 4;
    run(&mut c, 3);
    assert_eq!(c.delay_timer(), 9);
    assert_eq!(c.sound_timer(), 4);
    assert!(c.sound_on());
    assert_eq!(c.reg_v[3], 9);
}

#[test]
fn timer_reaches_zero_after_five_frames() {
    let mut c = Chip8::new();
    c.timers.delay = 5;
    c.timers.sound = 3;
    for k in 1..=4u8 {
        c.tick_timers(FRAME_US);
        assert_eq!(c.delay_timer(), 5 - k);
    }
    c.tick_timers(FRAME_US);
    assert_eq!(c.delay_timer(), 0);
    assert_eq!(c.sound_timer(), 0);
    assert!(!c.sound_on());
    c.tick_timers(FRAME_US);
    assert_eq!(c.delay_timer(), 0);
}

#[test]
fn timer_accumulates_partial_frames() {
    let mut c = Chip8::new();
    c.timers.delay = 10;
    c.tick_timers(10_000);
    assert_eq!(c.delay_timer(), 10);
    c.tick_timers(10_000);
    assert_eq!(c.delay_timer(), 9);
    c.tick_timers(100_000);
    // 120 ms in all: 7 whole ticks
    assert_eq!(c.delay_timer(), 3);
}

#[test]
fn rom_too_large_is_refused() {
    let mut c = Chip8::new();
    assert_eq!(c.load_rom(&vec![1u8; 0xE01]), Err(Fault::CapacityExceeded { len: 0xE01 }));
    assert_eq!(c.ram[0x200], 0);
    assert_eq!(c.load_rom(&vec![1u8; 0xE00]), Ok(()));
    assert_eq!(c.ram[0xFFF], 1);
}

#[test]
fn random_byte_is_masked() {
    let mut c = with_program(&[0xC1, 0x0F, 0xC2, 0x00]);
    c.cycle().unwrap();
    assert!(c.reg_v[1] <= 0x0F);
    c.reg_v[2] = 0xFF;
    c.cycle().unwrap();
    assert_eq!(c.reg_v[2], 0);
    let mut d = with_program(&[0xC1, 0xF0]);
    d.step(0xAB).unwrap();
    assert_eq!(d.reg_v[1], 0xA0);
}

#[test]
fn unknown_words_are_skipped() {
    let mut c = with_program(&[0x80, 0x08, 0xE0, 0x00, 0xF0, 0xFF, 0x01, 0x23]);
    assert_eq!(c.step(0), Ok(Some(Op::Unknown { word: 0x8008 })));
    assert_eq!(c.step(0), Ok(Some(Op::Unknown { word: 0xE000 })));
    assert_eq!(c.step(0), Ok(Some(Op::Unknown { word: 0xF0FF })));
    assert_eq!(c.step(0), Ok(Some(Op::Sys { addr: 0x123 })));
    assert_eq!(c.pc, 0x208);
}

#[test]
fn decoder_fields() {
    assert_eq!(decode(0x00E0), Op::Cls);
    assert_eq!(decode(0x00EE), Op::Ret);
    assert_eq!(decode(0xD3A7), Op::Drw { x: 3, y: 0xA, n: 7 });
    assert_eq!(decode(0x8AB6), Op::Shr { x: 0xA, y: 0xB });
    assert_eq!(decode(0x8ABE), Op::Shl { x: 0xA, y: 0xB });
    assert_eq!(decode(0x7C42), Op::AddByte { x: 0xC, nn: 0x42 });
    assert_eq!(decode(0xBFED), Op::JpV0 { addr: 0xFED });
    assert_eq!(decode(0xF265), Op::LoadRegs { x: 2 });
    assert_eq!(decode(0xF118), Op::LdStVx { x: 1 });
    assert_eq!(decode(0xE1A1), Op::Sknp { x: 1 });
}
