#![allow(non_snake_case)]

use chip8::{Chip8, Fault, Progress};

#[test]
fn MemoryGetTest() {
    let mut sut: Chip8 = Default::default();
    sut.MemorySet(0, 0xAB);
    assert_eq!(0xAB, sut.MemoryGet(0));
}

#[test]
fn MemoryGetShortTest() {
    let mut sut: Chip8 = Default::default();
    sut.MemorySet(0, 0xAB);
    sut.MemorySet(1, 0x12);
    assert_eq!(0xAB12, sut.MemoryGetShort(0));
}

#[test]
fn PixelSetTest() {
    let mut sut: Chip8 = Default::default();
    sut.PixelSet(0, 0);
    assert_eq!(true, sut.PixelIsSet(0, 0));
}

#[test]
fn DrawSpriteTest() {
    let mut sut: Chip8 = Default::default();
    let glyph = [
        sut.DefaultCharset[0],
        sut.DefaultCharset[1],
        sut.DefaultCharset[2],
        sut.DefaultCharset[3],
        sut.DefaultCharset[4],
    ];
    sut.DrawSprite(0, 0, &glyph, 5);
    let mut check = true;

    // Checks first and second column
    check &= sut.PixelIsSet(0, 0);
    check &= sut.PixelIsSet(0, 1);
    check &= sut.PixelIsSet(0, 2);
    check &= sut.PixelIsSet(0, 3);
    check &= sut.PixelIsSet(1, 0);
    check &= sut.PixelIsSet(0, 3);
    assert_eq!(true, check);
}

#[test]
fn DisplayClearTest() {
    let mut sut: Chip8 = Default::default();
    sut.PixelSet(0, 0);
    sut.DisplayClear();
    assert_eq!(false, sut.PixelIsSet(0, 0));
}

#[test]
fn KeyboardSwitchStateTest() {
    let mut sut: Chip8 = Default::default();
    sut.KeyboardSwitchState(0);
    assert_eq!(true, sut.KeyboardIsDown(0));
}

#[test]
fn KeyboardSwitchStateTest2() {
    let mut sut: Chip8 = Default::default();
    sut.KeyboardSwitchState(0);
    sut.KeyboardSwitchState(0);
    assert_eq!(false, sut.KeyboardIsDown(0));
}

fn run(m: &mut Chip8, opcode: u16) {
    assert_eq!(Ok(Progress::Executed), m.execute(opcode));
}

#[test]
fn new_machine_state() {
    let m = Chip8::default();
    assert_eq!(0x200, m.program_counter());
    assert_eq!(0, m.index_register());
    assert_eq!(0, m.stack_depth());
    assert_eq!(0, m.delay_timer());
    assert_eq!(0, m.sound_timer());
    let zero_glyph = [0xF0, 0x90, 0x90, 0x90, 0xF0];
    for (a, b) in zero_glyph.iter().enumerate() {
        assert_eq!(*b, m.MemoryGet(a));
    }
    assert_eq!(0x80, m.MemoryGet(79));
    assert_eq!(0, m.MemoryGet(80));
    assert_eq!(0, m.MemoryGet(0x200));
}

#[test]
fn add_immediate_wraps_for_all_values() {
    for x in 0..256u16 {
        for kk in [0u16, 1, 6, 127, 128, 200, 255] {
            let mut m = Chip8::default();
            run(&mut m, 0x6F07);
            run(&mut m, 0x6300 | x);
            run(&mut m, 0x7300 | kk);
            assert_eq!(((x + kk) % 256) as u8, m.register(3));
            assert_eq!(7, m.register(15));
        }
    }
}

#[test]
fn clear_screen_turns_every_pixel_off() {
    let mut m = Chip8::default();
    m.PixelSet(63, 31);
    m.PixelSet(10, 20);
    run(&mut m, 0x00E0);
    for x in 0..64 {
        for y in 0..32 {
            assert!(!m.PixelIsSet(x, y));
        }
    }
}

#[test]
fn glyph_drawn_twice_restores_frame_and_reports_collision() {
    let mut m = Chip8::default();
    m.PixelSet(40, 5);
    run(&mut m, 0xA000);
    run(&mut m, 0x6100);
    run(&mut m, 0x6200);
    run(&mut m, 0xD125);
    assert_eq!(0, m.register(15));
    assert!(m.PixelIsSet(0, 0) && m.PixelIsSet(3, 0) && !m.PixelIsSet(4, 0));
    assert!(m.PixelIsSet(0, 1) && !m.PixelIsSet(1, 1) && m.PixelIsSet(3, 1));
    run(&mut m, 0xD125);
    assert_eq!(1, m.register(15));
    for x in 0..64 {
        for y in 0..32 {
            assert_eq!(x == 40 && y == 5, m.PixelIsSet(x, y));
        }
    }
}

#[test]
fn draw_wraps_both_axes() {
    let mut m = Chip8::default();
    let collided = m.DrawSprite(62, 31, &[0xFF, 0x81], 2);
    assert!(!collided);
    assert!(m.PixelIsSet(62, 31) && m.PixelIsSet(63, 31) && m.PixelIsSet(0, 31) && m.PixelIsSet(5, 31));
    assert!(!m.PixelIsSet(6, 31));
    assert!(m.PixelIsSet(62, 0) && !m.PixelIsSet(63, 0) && m.PixelIsSet(5, 0));
    assert!(m.DrawSprite(126, 63, &[0x80], 1));
    assert!(!m.PixelIsSet(62, 31));
}

#[test]
fn stack_round_trip_and_overflow() {
    let mut m = Chip8::default();
    assert_eq!(Ok(()), m.StackPush(0x1234));
    assert_eq!(1, m.stack_depth());
    assert_eq!(Ok(0x1234), m.StackPop());
    assert_eq!(0, m.stack_depth());
    for k in 0..16u16 {
        assert_eq!(Ok(()), m.StackPush(k));
    }
    assert_eq!(Err(Fault::StackOverflow), m.StackPush(99));
    assert_eq!(16, m.stack_depth());
    assert_eq!(Ok(15), m.StackPop());
}

#[test]
fn pop_on_empty_stack_faults() {
    let mut m = Chip8::default();
    assert_eq!(Err(Fault::StackUnderflow), m.StackPop());
    assert_eq!(Err(Fault::StackUnderflow), m.execute(0x00EE));
    assert_eq!(0x200, m.program_counter());
}

#[test]
fn call_and_return() {
    let mut m = Chip8::default();
    run(&mut m, 0x2ABC);
    assert_eq!(0xABC, m.program_counter());
    assert_eq!(1, m.stack_depth());
    run(&mut m, 0x00EE);
    assert_eq!(0x200, m.program_counter());
    assert_eq!(0, m.stack_depth());
    for _ in 0..16 {
        run(&mut m, 0x2300);
    }
    assert_eq!(Err(Fault::StackOverflow), m.execute(0x2300));
    assert_eq!(16, m.stack_depth());
}

#[test]
fn alu_add_sets_carry() {
    let mut m = Chip8::default();
    run(&mut m, 0x61FA);
    run(&mut m, 0x620A);
    run(&mut m, 0x8124);
    assert_eq!(4, m.register(1));
    assert_eq!(1, m.register(15));
    run(&mut m, 0x610A);
    run(&mut m, 0x8124);
    assert_eq!(20, m.register(1));
    assert_eq!(0, m.register(15));
}

#[test]
fn alu_subtract_shift_and_logic() {
    let mut m = Chip8::default();
    run(&mut m, 0x6105);
    run(&mut m, 0x6207);
    run(&mut m, 0x8125);
    assert_eq!(254, m.register(1));
    assert_eq!(0, m.register(15));
    run(&mut m, 0x6105);
    run(&mut m, 0x8127);
    assert_eq!(2, m.register(1));
    assert_eq!(1, m.register(15));
    run(&mut m, 0x6181);
    run(&mut m, 0x8106);
    assert_eq!(0x40, m.register(1));
    assert_eq!(1, m.register(15));
    run(&mut m, 0x6181);
    run(&mut m, 0x810E);
    assert_eq!(0x02, m.register(1));
    assert_eq!(1, m.register(15));
    run(&mut m, 0x61F0);
    run(&mut m, 0x623C);
    run(&mut m, 0x8121);
    assert_eq!(0xFC, m.register(1));
    run(&mut m, 0x8122);
    assert_eq!(0x3C, m.register(1));
    run(&mut m, 0x8123);
    assert_eq!(0x00, m.register(1));
    run(&mut m, 0x8120);
    assert_eq!(0x3C, m.register(1));
}

#[test]
fn alu_flag_wins_over_result_in_vf() {
    let mut m = Chip8::default();
    run(&mut m, 0x6FFF);
    run(&mut m, 0x6102);
    run(&mut m, 0x8F14);
    assert_eq!(1, m.register(15));
}

#[test]
fn bcd_store() {
    let mut m = Chip8::default();
    run(&mut m, 0x659C);
    run(&mut m, 0xA300);
    run(&mut m, 0xF533);
    assert_eq!([1, 5, 6], [m.MemoryGet(0x300), m.MemoryGet(0x301), m.MemoryGet(0x302)]);
}

#[test]
fn bcd_store_wraps_at_end_of_memory() {
    let mut m = Chip8::default();
    run(&mut m, 0x65FF);
    run(&mut m, 0xAFFF);
    run(&mut m, 0xF533);
    assert_eq!([2, 5, 5], [m.MemoryGet(0xFFF), m.MemoryGet(0), m.MemoryGet(1)]);
}

#[test]
fn skip_equal_immediate_over_a_cycle() {
    let mut m = Chip8::default();
    m.MemorySet(0x200, 0x34);
    m.MemorySet(0x201, 0x00);
    assert_eq!(Ok(Progress::Executed), m.cycle());
    assert_eq!(0x204, m.program_counter());

    let mut m = Chip8::default();
    m.MemorySet(0x200, 0x34);
    m.MemorySet(0x201, 0x01);
    assert_eq!(Ok(Progress::Executed), m.cycle());
    assert_eq!(0x202, m.program_counter());
}

#[test]
fn other_skips() {
    let mut m = Chip8::default();
    run(&mut m, 0x6107);
    run(&mut m, 0x6207);
    run(&mut m, 0x4107);
    assert_eq!(0x200, m.program_counter());
    run(&mut m, 0x5120);
    assert_eq!(0x202, m.program_counter());
    run(&mut m, 0x9120);
    assert_eq!(0x202, m.program_counter());
    run(&mut m, 0x4100);
    assert_eq!(0x204, m.program_counter());
    run(&mut m, 0xE19E);
    assert_eq!(0x204, m.program_counter());
    run(&mut m, 0xE1A1);
    assert_eq!(0x206, m.program_counter());
    m.set_key_state(7, true);
    run(&mut m, 0xE19E);
    assert_eq!(0x208, m.program_counter());
}

#[test]
fn key_wait_over_cycles() {
    let mut m = Chip8::default();
    run(&mut m, 0x6333);
    m.MemorySet(0x200, 0xF3);
    m.MemorySet(0x201, 0x0A);
    assert_eq!(Ok(Progress::AwaitingKey), m.cycle());
    assert_eq!(0x200, m.program_counter());
    assert_eq!(0x33, m.register(3));
    assert_eq!(Ok(Progress::AwaitingKey), m.cycle());
    assert_eq!(0x200, m.program_counter());
    m.set_key_state(0xB, true);
    m.set_key_state(0xE, true);
    assert_eq!(Ok(Progress::Executed), m.cycle());
    assert_eq!(0xB, m.register(3));
    assert_eq!(0x202, m.program_counter());
}

#[test]
fn jumps_and_index() {
    let mut m = Chip8::default();
    run(&mut m, 0x1234);
    assert_eq!(0x234, m.program_counter());
    run(&mut m, 0x6010);
    run(&mut m, 0xBFFF);
    assert_eq!(0x00F, m.program_counter());
    run(&mut m, 0xAFFE);
    assert_eq!(0xFFE, m.index_register());
    run(&mut m, 0x6403);
    run(&mut m, 0xF41E);
    assert_eq!(0x001, m.index_register());
    run(&mut m, 0x641B);
    run(&mut m, 0xF429);
    assert_eq!(55, m.index_register());
}

#[test]
fn timers() {
    let mut m = Chip8::default();
    run(&mut m, 0x6A2C);
    run(&mut m, 0xFA15);
    run(&mut m, 0xFA18);
    assert_eq!(0x2C, m.delay_timer());
    assert_eq!(0x2C, m.sound_timer());
    m.set_delay_timer(9);
    m.set_sound_timer(3);
    run(&mut m, 0xF007);
    assert_eq!(9, m.register(0));
    assert_eq!(3, m.sound_timer());
}

#[test]
fn store_and_load_registers() {
    let mut m = Chip8::default();
    run(&mut m, 0x6011);
    run(&mut m, 0x6122);
    run(&mut m, 0x6233);
    run(&mut m, 0x6344);
    run(&mut m, 0xA400);
    run(&mut m, 0xF255);
    assert_eq!([0x11, 0x22, 0x33, 0x00], [m.MemoryGet(0x400), m.MemoryGet(0x401), m.MemoryGet(0x402), m.MemoryGet(0x403)]);
    assert_eq!(0x400, m.index_register());
    run(&mut m, 0x6000);
    run(&mut m, 0x6100);
    run(&mut m, 0x6200);
    run(&mut m, 0xF165);
    assert_eq!([0x11, 0x22, 0x00, 0x44], [m.register(0), m.register(1), m.register(2), m.register(3)]);
}

#[test]
fn random_is_masked_by_immediate() {
    let mut m = Chip8::default();
    for _ in 0..50 {
        run(&mut m, 0xC50F);
        assert!(m.register(5) <= 0x0F);
        run(&mut m, 0xC500);
        assert_eq!(0, m.register(5));
    }
    run(&mut m, 0x65AA);
    assert_eq!(Ok(Progress::Executed), m.execute_with_random(0xC5F0, 0x5C));
    assert_eq!(0x50, m.register(5));
}

#[test]
fn unknown_opcodes_fault_and_change_nothing() {
    let mut m = Chip8::default();
    run(&mut m, 0x6142);
    for op in [0x0123u16, 0x812F, 0xE1FF, 0xF1FF] {
        assert_eq!(Err(Fault::UnknownOpcode(op)), m.execute(op));
        assert_eq!(0x42, m.register(1));
        assert_eq!(0x200, m.program_counter());
    }
}

#[test]
fn set_key_state_and_read() {
    let mut m = Chip8::default();
    m.set_key_state(15, true);
    assert!(m.KeyboardIsDown(15));
    m.set_key_state(15, false);
    assert!(!m.KeyboardIsDown(15));
}
