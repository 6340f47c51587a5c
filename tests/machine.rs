use chip8_core::{decode, Emu, Fault, Instr, SCREEN_WIDTH};

fn machine(program: &[u8]) -> Emu {
    let mut e = Emu::new();
    e.load(program).unwrap();
    e
}

fn run(e: &mut Emu, cycles: usize) {
    for _ in 0..cycles {
        e.tick().unwrap();
    }
}

#[test]
fn fresh_machine_state() {
    let e = Emu::new();
    assert_eq!(e.pc(), 0x200);
    assert_eq!(e.index(), 0);
    assert_eq!(e.stack_depth(), 0);
    assert_eq!(e.delay_timer(), 0);
    assert_eq!(e.sound_timer(), 0);
    for r in 0..16 {
        assert_eq!(e.register(r), 0);
        assert!(!e.key(r));
    }
    assert!(e.display().iter().all(|p| !*p));
    for a in 80..4096 {
        assert_eq!(e.memory(a), 0);
    }
}

#[test]
fn font_table_fills_first_eighty_bytes() {
    let e = Emu::new();
    let zero = [0xF0, 0x90, 0x90, 0x90, 0xF0];
    let f = [0xF0, 0x80, 0xF0, 0x80, 0x80];
    for k in 0..5 {
        assert_eq!(e.memory(k), zero[k]);
        assert_eq!(e.memory(75 + k), f[k]);
    }
    assert_eq!(e.memory(79), 0x80);
    assert_eq!(e.memory(80), 0);
}

#[test]
fn load_leaves_font_alone() {
    let before = Emu::new();
    let e = machine(&[0xAA; 3584]);
    for a in 0..0x200 {
        assert_eq!(e.memory(a), before.memory(a));
    }
    assert_eq!(e.memory(0x200), 0xAA);
    assert_eq!(e.memory(4095), 0xAA);
}

#[test]
fn load_refuses_oversized_image() {
    let mut e = Emu::new();
    assert_eq!(e.load(&[1u8; 3585]), Err(Fault::ProgramTooLarge(3585)));
    assert_eq!(e.memory(0x200), 0);
}

#[test]
fn reset_twice_equals_reset_once() {
    let mut a = machine(&[0x60, 0x12, 0xA3, 0x00, 0x00, 0xE0]);
    run(&mut a, 2);
    a.set_key(3, true).unwrap();
    a.reset();
    let mut b = machine(&[0x61, 0x34]);
    run(&mut b, 1);
    b.reset();
    b.reset();
    assert_eq!(a.pc(), b.pc());
    assert_eq!(a.index(), b.index());
    assert_eq!(a.stack_depth(), b.stack_depth());
    for r in 0..16 {
        assert_eq!(a.register(r), b.register(r));
        assert_eq!(a.key(r), b.key(r));
    }
    for addr in 0..4096 {
        assert_eq!(a.memory(addr), b.memory(addr));
    }
    assert_eq!(a.display()[..], b.display()[..]);
    assert_eq!(a.pc(), 0x200);
    assert_eq!(a.register(0), 0);
    assert_eq!(a.memory(0), 0xF0);
}

#[test]
fn add_immediate_wraps_without_flag() {
    // VF = 7, V0 = 0xFF, V0 += 2
    let mut e = machine(&[0x6F, 0x07, 0x60, 0xFF, 0x70, 0x02]);
    run(&mut e, 3);
    assert_eq!(e.register(0), 1);
    assert_eq!(e.register(0xF), 7);
}

#[test]
fn add_registers_sets_carry() {
    let mut e = machine(&[0x60, 0xC8, 0x61, 0x64, 0x80, 0x14, 0x62, 0x01, 0x63, 0x02, 0x82, 0x34]);
    run(&mut e, 3);
    assert_eq!(e.register(0), 44);
    assert_eq!(e.register(0xF), 1);
    run(&mut e, 3);
    assert_eq!(e.register(2), 3);
    assert_eq!(e.register(0xF), 0);
}

#[test]
fn add_registers_carry_at_exactly_256() {
    let mut e = machine(&[0x60, 0x80, 0x61, 0x80, 0x80, 0x14]);
    run(&mut e, 3);
    assert_eq!(e.register(0), 0);
    assert_eq!(e.register(0xF), 1);
}

#[test]
fn subtract_sets_borrow_flag() {
    // V0 = 5, V1 = 7, V0 -= V1 -> borrow
    let mut e = machine(&[0x60, 0x05, 0x61, 0x07, 0x80, 0x15]);
    run(&mut e, 3);
    assert_eq!(e.register(0), 254);
    assert_eq!(e.register(0xF), 0);
    // V2 = 9, V3 = 9, V2 -= V3 -> no borrow
    let mut e = machine(&[0x62, 0x09, 0x63, 0x09, 0x82, 0x35]);
    run(&mut e, 3);
    assert_eq!(e.register(2), 0);
    assert_eq!(e.register(0xF), 1);
}

#[test]
fn reverse_subtract_sets_borrow_flag() {
    // V0 = 5, V1 = 7, V0 = V1 - V0
    let mut e = machine(&[0x60, 0x05, 0x61, 0x07, 0x80, 0x17]);
    run(&mut e, 3);
    assert_eq!(e.register(0), 2);
    assert_eq!(e.register(0xF), 1);
    // V0 = 7, V1 = 5, V0 = V1 - V0
    let mut e = machine(&[0x60, 0x07, 0x61, 0x05, 0x80, 0x17]);
    run(&mut e, 3);
    assert_eq!(e.register(0), 254);
    assert_eq!(e.register(0xF), 0);
}

#[test]
fn bitwise_and_shifts() {
    let mut e = machine(&[
        0x60, 0b1100, 0x61, 0b1010, 0x62, 0b1100, 0x63, 0b1100, 0x80, 0x11, 0x82, 0x12, 0x83,
        0x13, 0x64, 0x81, 0x84, 0x06,
    ]);
    run(&mut e, 8);
    assert_eq!(e.register(0), 0b1110);
    assert_eq!(e.register(2), 0b1000);
    assert_eq!(e.register(3), 0b0110);
    run(&mut e, 2);
    assert_eq!(e.register(4), 0x40);
    assert_eq!(e.register(0xF), 1);
    let mut e = machine(&[0x65, 0x81, 0x85, 0x0E, 0x66, 0x41, 0x86, 0x0E, 0x67, 0x33, 0x87, 0x60]);
    run(&mut e, 2);
    assert_eq!(e.register(5), 0x02);
    assert_eq!(e.register(0xF), 1);
    run(&mut e, 2);
    assert_eq!(e.register(6), 0x82);
    assert_eq!(e.register(0xF), 0);
    run(&mut e, 2);
    assert_eq!(e.register(7), 0x82);
}

#[test]
fn skips_advance_by_four_when_taken() {
    // V0 = 5; 3005 skips
    let mut e = machine(&[0x60, 0x05, 0x30, 0x05]);
    run(&mut e, 2);
    assert_eq!(e.pc(), 0x206);
    // 4005 does not skip
    let mut e = machine(&[0x60, 0x05, 0x40, 0x05]);
    run(&mut e, 2);
    assert_eq!(e.pc(), 0x204);
    // V1 = 5; 5010 skips, 9010 does not
    let mut e = machine(&[0x60, 0x05, 0x61, 0x05, 0x50, 0x10, 0x00, 0x00, 0x90, 0x10]);
    run(&mut e, 3);
    assert_eq!(e.pc(), 0x208);
    run(&mut e, 1);
    assert_eq!(e.pc(), 0x20A);
}

#[test]
fn key_skips_follow_keypad() {
    // V0 = 3; E09E; E0A1
    let mut e = machine(&[0x60, 0x03, 0xE0, 0x9E, 0x00, 0x00, 0xE0, 0xA1]);
    e.set_key(3, true).unwrap();
    run(&mut e, 2);
    assert_eq!(e.pc(), 0x206);
    run(&mut e, 1);
    assert_eq!(e.pc(), 0x208);
    let mut e = machine(&[0x60, 0x03, 0xE0, 0x9E, 0xE0, 0xA1]);
    run(&mut e, 2);
    assert_eq!(e.pc(), 0x204);
    run(&mut e, 1);
    assert_eq!(e.pc(), 0x208);
}

#[test]
fn key_skip_out_of_range_faults() {
    let mut e = machine(&[0x60, 0x14, 0xE0, 0x9E]);
    run(&mut e, 1);
    assert_eq!(e.tick(), Err(Fault::BadKey(20)));
    assert_eq!(e.pc(), 0x202);
}

#[test]
fn set_key_refuses_index_sixteen() {
    let mut e = Emu::new();
    assert_eq!(e.set_key(16, true), Err(Fault::BadKey(16)));
    assert_eq!(e.set_key(15, true), Ok(()));
    assert!(e.key(15));
    e.set_key(15, false).unwrap();
    assert!(!e.key(15));
}

#[test]
fn store_then_load_round_trip() {
    // V0..V3 = 1, 2, 3, 4; I = 0x300; F355; clear V0..V3; F365
    let mut e = machine(&[
        0x60, 0x01, 0x61, 0x02, 0x62, 0x03, 0x63, 0x04, 0xA3, 0x00, 0xF3, 0x55, 0x60, 0x00,
        0x61, 0x00, 0x62, 0x00, 0x63, 0x00, 0xF3, 0x65,
    ]);
    run(&mut e, 6);
    assert_eq!(e.memory(0x300), 1);
    assert_eq!(e.memory(0x303), 4);
    assert_eq!(e.memory(0x304), 0);
    run(&mut e, 4);
    assert_eq!(e.register(0), 0);
    run(&mut e, 1);
    assert_eq!(e.register(0), 1);
    assert_eq!(e.register(1), 2);
    assert_eq!(e.register(2), 3);
    assert_eq!(e.register(3), 4);
    assert_eq!(e.index(), 0x300);
}

#[test]
fn store_below_program_area_faults() {
    let mut e = machine(&[0xA1, 0x00, 0xF0, 0x55]);
    run(&mut e, 1);
    assert_eq!(e.tick(), Err(Fault::BadAddress(0x100)));
    assert_eq!(e.memory(0x100), 0);
}

#[test]
fn load_past_memory_end_faults() {
    let mut e = machine(&[0xAF, 0xFE, 0xF2, 0x65]);
    run(&mut e, 1);
    assert_eq!(e.tick(), Err(Fault::BadAddress(0xFFE)));
}

#[test]
fn bcd_of_234_and_7() {
    let mut e = machine(&[0x60, 0xEA, 0xA3, 0x00, 0xF0, 0x33, 0x61, 0x07, 0xA3, 0x10, 0xF1, 0x33]);
    run(&mut e, 3);
    assert_eq!([e.memory(0x300), e.memory(0x301), e.memory(0x302)], [2, 3, 4]);
    run(&mut e, 3);
    assert_eq!([e.memory(0x310), e.memory(0x311), e.memory(0x312)], [0, 0, 7]);
}

#[test]
fn bcd_past_memory_end_faults() {
    let mut e = machine(&[0xAF, 0xFE, 0xF0, 0x33]);
    run(&mut e, 1);
    assert_eq!(e.tick(), Err(Fault::BadAddress(0xFFE)));
    assert_eq!(e.memory(0xFFE), 0);
}

#[test]
fn draw_then_redraw_toggles_and_collides() {
    // I = 0x208; V0 = 0; D001; D001; sprite byte F0 at 0x208
    let mut e = machine(&[0xA2, 0x08, 0x60, 0x00, 0xD0, 0x01, 0xD0, 0x01, 0xF0]);
    run(&mut e, 3);
    for x in 0..4 {
        assert!(e.pixel(x, 0));
    }
    for x in 4..8 {
        assert!(!e.pixel(x, 0));
    }
    assert_eq!(e.display().iter().filter(|p| **p).count(), 4);
    assert_eq!(e.register(0xF), 0);
    run(&mut e, 1);
    assert_eq!(e.register(0xF), 1);
    assert!(e.display().iter().all(|p| !*p));
}

#[test]
fn draw_wraps_around_edges() {
    // I = 0x20A; V0 = 62; V1 = 31; D012; rows F0, 80 at 0x20A
    let mut e = machine(&[0xA2, 0x0A, 0x60, 0x3E, 0x61, 0x1F, 0xD0, 0x12, 0x00, 0x00, 0xF0, 0x80]);
    run(&mut e, 4);
    assert!(e.pixel(62, 31));
    assert!(e.pixel(63, 31));
    assert!(e.pixel(0, 31));
    assert!(e.pixel(1, 31));
    assert!(!e.pixel(2, 31));
    assert!(e.pixel(62, 0));
    assert!(!e.pixel(63, 0));
    assert!(e.display()[31 * SCREEN_WIDTH + 62]);
    assert_eq!(e.register(0xF), 0);
}

#[test]
fn draw_font_glyph() {
    // V0 = 0xA; F029; D115 at (0, 0)
    let mut e = machine(&[0x60, 0x0A, 0xF0, 0x29, 0xD1, 0x15]);
    run(&mut e, 2);
    assert_eq!(e.index(), 50);
    run(&mut e, 1);
    // glyph A: F0 90 F0 90 90
    assert!(e.pixel(0, 0) && e.pixel(3, 0) && !e.pixel(4, 0));
    assert!(e.pixel(0, 1) && !e.pixel(1, 1) && e.pixel(3, 1));
    assert!(e.pixel(0, 4) && !e.pixel(2, 4));
}

#[test]
fn clear_screen_blanks_display() {
    let mut e = machine(&[0x60, 0x00, 0xF0, 0x29, 0xD0, 0x05, 0x00, 0xE0]);
    run(&mut e, 3);
    assert!(e.display().iter().any(|p| *p));
    run(&mut e, 1);
    assert!(e.display().iter().all(|p| !*p));
}

#[test]
fn draw_past_memory_end_faults() {
    let mut e = machine(&[0xAF, 0xFE, 0xD0, 0x03]);
    run(&mut e, 1);
    assert_eq!(e.tick(), Err(Fault::BadAddress(0xFFE)));
}

#[test]
fn wait_key_stalls_until_pressed() {
    let mut e = machine(&[0xF5, 0x0A]);
    run(&mut e, 3);
    assert_eq!(e.pc(), 0x200);
    assert_eq!(e.register(5), 0);
    e.set_key(9, true).unwrap();
    e.set_key(12, true).unwrap();
    run(&mut e, 1);
    assert_eq!(e.pc(), 0x202);
    assert_eq!(e.register(5), 9);
}

#[test]
fn call_then_return_resumes_after_call() {
    // 0x200: call 0x206; 0x206: return
    let mut e = machine(&[0x22, 0x06, 0x00, 0x00, 0x00, 0x00, 0x00, 0xEE]);
    run(&mut e, 1);
    assert_eq!(e.pc(), 0x206);
    assert_eq!(e.stack_depth(), 1);
    run(&mut e, 1);
    assert_eq!(e.pc(), 0x202);
    assert_eq!(e.stack_depth(), 0);
}

#[test]
fn return_with_empty_stack_faults() {
    let mut e = machine(&[0x00, 0xEE]);
    assert_eq!(e.tick(), Err(Fault::StackUnderflow));
    assert_eq!(e.pc(), 0x200);
}

#[test]
fn seventeenth_nested_call_overflows() {
    let mut e = machine(&[0x22, 0x00]);
    run(&mut e, 16);
    assert_eq!(e.stack_depth(), 16);
    assert_eq!(e.tick(), Err(Fault::StackOverflow));
    assert_eq!(e.stack_depth(), 16);
    assert_eq!(e.pc(), 0x200);
}

#[test]
fn unknown_opcode_faults_and_keeps_state() {
    let mut e = machine(&[0x50, 0x01]);
    assert_eq!(e.tick(), Err(Fault::UnknownOpcode(0x5001)));
    assert_eq!(e.pc(), 0x200);
    let mut e = machine(&[0x00, 0x01]);
    assert_eq!(e.tick(), Err(Fault::UnknownOpcode(0x0001)));
    let mut e = machine(&[0xF0, 0xFF]);
    assert_eq!(e.tick(), Err(Fault::UnknownOpcode(0xF0FF)));
}

#[test]
fn fetch_past_memory_end_faults() {
    let mut e = machine(&[0x1F, 0xFF]);
    run(&mut e, 1);
    assert_eq!(e.pc(), 0xFFF);
    assert_eq!(e.tick(), Err(Fault::BadAddress(0xFFF)));
}

#[test]
fn jumps_and_index_operations() {
    // V0 = 4; B300 -> PC = 0x304
    let mut e = machine(&[0x60, 0x04, 0xB3, 0x00]);
    run(&mut e, 2);
    assert_eq!(e.pc(), 0x304);
    // I = 0xFFF; V0 = 0xFF; F01E -> I = 0x10FE
    let mut e = machine(&[0xAF, 0xFF, 0x60, 0xFF, 0xF0, 0x1E]);
    run(&mut e, 3);
    assert_eq!(e.index(), 0x10FE);
}

#[test]
fn timers_count_down_to_zero() {
    // V0 = 2; delay = V0; V1 = 1; sound = V1; V2 = delay
    let mut e = machine(&[0x60, 0x02, 0xF0, 0x15, 0x61, 0x01, 0xF1, 0x18, 0xF2, 0x07]);
    run(&mut e, 5);
    assert_eq!(e.register(2), 2);
    assert_eq!(e.delay_timer(), 2);
    assert_eq!(e.sound_timer(), 1);
    e.tick_timers();
    assert_eq!(e.delay_timer(), 1);
    assert_eq!(e.sound_timer(), 0);
    e.tick_timers();
    e.tick_timers();
    assert_eq!(e.delay_timer(), 0);
    assert_eq!(e.sound_timer(), 0);
}

#[test]
fn random_is_masked_and_reproducible() {
    let program = [0xC0, 0x0F, 0xC1, 0xFF, 0xC2, 0x00];
    let mut a = machine(&program);
    let mut b = machine(&program);
    run(&mut a, 3);
    run(&mut b, 3);
    assert!(a.register(0) <= 0x0F);
    assert_eq!(a.register(2), 0);
    assert_eq!(a.register(0), b.register(0));
    assert_eq!(a.register(1), b.register(1));
}

#[test]
fn decode_names_instructions() {
    assert_eq!(decode(0x0000), Some(Instr::Nop));
    assert_eq!(decode(0x00E0), Some(Instr::Clear));
    assert_eq!(decode(0x00EE), Some(Instr::Return));
    assert_eq!(decode(0x1ABC), Some(Instr::Jump(0xABC)));
    assert_eq!(decode(0x8AB4), Some(Instr::AddReg(0xA, 0xB)));
    assert_eq!(decode(0x8ABE), Some(Instr::ShiftLeft(0xA)));
    assert_eq!(decode(0xD12F), Some(Instr::Draw(1, 2, 0xF)));
    assert_eq!(decode(0xF765), Some(Instr::LoadRegs(7)));
    assert_eq!(decode(0x8AB8), None);
    assert_eq!(decode(0xE0A2), None);
}
