use chip8::processor::ProgramCounter;
use chip8::{
    Fault, KeyState, Processor, CHIP8_SCREEN_CELLS, CHIP8_SCREEN_WIDTH, OPCODE_SIZE,
    PROGRAM_CAPACITY,
};

fn build_processor() -> Processor {
    let mut processor = Processor::new();
    processor.pc = 0x200;
    processor
}

fn get_keypad() -> KeyState {
    KeyState::new()
}

fn write_opcode(processor: &mut Processor, addr: usize, opcode: u16) {
    processor.ram[addr] = (opcode >> 8) as u8;
    processor.ram[addr + 1] = (opcode & 0xFF) as u8;
}

#[test]
fn test_load_rom() {
    let mut processor = Processor::new();
    processor.load(&[1, 2, 3]);
    assert_eq!(processor.ram[0x200], 1);
    assert_eq!(processor.ram[0x201], 2);
    assert_eq!(processor.ram[0x202], 3);
}

#[test]
fn test_emulate_cycle() {
    let mut processor = Processor::new();
    let keypad = get_keypad();

    processor.delay_timer = 10;
    processor.sound_timer = 10;
    processor.emulate_cycle(&keypad);

    assert_eq!(processor.delay_timer, 9);
    assert_eq!(processor.sound_timer, 9);
    assert_eq!(processor.pc, 0x200 + OPCODE_SIZE);

    processor.delay_timer = 0;
    processor.sound_timer = 0;
    processor.emulate_cycle(&keypad);

    assert_eq!(processor.delay_timer, 0);
    assert_eq!(processor.sound_timer, 0);
    assert_eq!(processor.pc, 0x200 + (2 * OPCODE_SIZE));

    assert_eq!(processor.display_flag, false);
    assert_eq!(processor.clear_flag, false);
}

#[test]
fn test_op_00e0() {
    let mut processor = build_processor();
    let keypad = get_keypad();
    processor.vram[5] = 1;
    processor.execute_opcode(0x00E0, &keypad, 0);

    assert_eq!(processor.vram, [0; CHIP8_SCREEN_CELLS]);
    assert_eq!(processor.clear_flag, true);
    assert_eq!(processor.sp, 0);
    assert_eq!(processor.pc, 0x200 + OPCODE_SIZE);
}

#[test]
fn test_op_00ee() {
    let mut processor = build_processor();
    let keypad = get_keypad();
    processor.sp = 4;
    processor.stack[3] = 0x400;

    processor.execute_opcode(0x00EE, &keypad, 0);
    assert_eq!(processor.sp, 3);
    assert_eq!(processor.pc, 0x400);
}

#[test]
fn test_op_1nnn() {
    let mut processor = build_processor();
    let keypad = get_keypad();

    processor.execute_opcode(0x1444, &keypad, 0);
    assert_eq!(processor.pc, 0x444);
}

#[test]
fn test_op_2nnn() {
    let mut processor = build_processor();
    let keypad = get_keypad();

    processor.execute_opcode(0x2777, &keypad, 0);
    assert_eq!(processor.stack[0], 0x200 + OPCODE_SIZE);
    assert_eq!(processor.sp, 1);
    assert_eq!(processor.pc, 0x777);
}

#[test]
fn test_3xkk() {
    let mut processor = build_processor();
    let keypad = get_keypad();

    processor.reg[7] = 0x22;
    processor.execute_opcode(0x3744, &keypad, 0);
    assert_eq!(processor.pc, 0x200 + OPCODE_SIZE);

    processor.execute_opcode(0x3722, &keypad, 0);
    assert_eq!(processor.pc, 0x202 + (2 * OPCODE_SIZE));
}

#[test]
fn test_4xkk() {
    let mut processor = build_processor();
    let keypad = get_keypad();

    processor.reg[7] = 0x22;
    processor.execute_opcode(0x4744, &keypad, 0);
    assert_eq!(processor.pc, 0x200 + (2 * OPCODE_SIZE));

    processor.execute_opcode(0x4722, &keypad, 0);
    assert_eq!(processor.pc, 0x204 + OPCODE_SIZE);
}

#[test]
fn test_5xy0() {
    let mut processor = build_processor();
    let keypad = get_keypad();
    let x = 2;
    let y = 8;

    processor.reg[x] = 0x10;
    processor.reg[y] = 0x10;
    processor.execute_opcode(0x5280, &keypad, 0);
    assert_eq!(processor.pc, 0x200 + (2 * OPCODE_SIZE));

    processor.reg[y] = 0x20;
    processor.execute_opcode(0x5280, &keypad, 0);
    assert_eq!(processor.pc, 0x204 + OPCODE_SIZE);
}

#[test]
fn test_6xkk() {
    let mut processor = build_processor();
    let keypad = get_keypad();

    processor.execute_opcode(0x6522, &keypad, 0);
    assert_eq!(processor.reg[0x5], 0x22);
}

#[test]
fn test_7xkk() {
    let mut processor = build_processor();
    let keypad = get_keypad();

    processor.execute_opcode(0x7588, &keypad, 0);
    assert_eq!(processor.reg[0x5], 0x88);

    // 0x88 + 0xFE = 0x186, which wraps to 0x86.
    processor.execute_opcode(0x75FE, &keypad, 0);
    assert_eq!(processor.reg[0x5], 0x86);
}

#[test]
fn new_machine_holds_glyphs_and_starts_at_program() {
    let processor = Processor::new();
    assert_eq!(&processor.ram[0..5], &[0xF0, 0x90, 0x90, 0x90, 0xF0]);
    assert_eq!(&processor.ram[75..80], &[0xF0, 0x80, 0xF0, 0x80, 0x80]);
    assert_eq!(processor.ram[80], 0);
    assert_eq!(processor.pc, 0x200);
    assert_eq!(processor.sp, 0);
    assert_eq!(processor.i, 0);
    assert_eq!(processor.reg, [0; 16]);
}

#[test]
fn load_stops_at_capacity() {
    let mut processor = Processor::new();
    let rom = vec![7u8; PROGRAM_CAPACITY + 10];
    processor.load(&rom);
    assert_eq!(processor.ram[0x200], 7);
    assert_eq!(processor.ram[0xFFF], 7);
    assert_eq!(processor.ram[0x1FF], 0);
}

#[test]
fn load_leaves_bytes_past_the_rom() {
    let mut processor = Processor::new();
    processor.ram[0x203] = 9;
    processor.load(&[]);
    processor.load(&[1, 2, 3]);
    assert_eq!(processor.ram[0x203], 9);
}

#[test]
fn scenario_load_register() {
    let mut processor = Processor::new();
    processor.load(&[0x60, 0x05]);
    let signals = processor.emulate_cycle(&get_keypad());
    assert_eq!(processor.reg[0], 5);
    assert_eq!(processor.pc, 0x202);
    assert!(!signals.display && !signals.clear && !signals.awaiting_key);
    assert_eq!(signals.fault, None);
}

#[test]
fn scenario_draw_digit_zero() {
    let mut processor = Processor::new();
    processor.i = 0;
    processor.reg[0] = 0;
    processor.load(&[0xD0, 0x05]);
    let signals = processor.emulate_cycle(&get_keypad());
    let glyph = [0xF0u8, 0x90, 0x90, 0x90, 0xF0];
    for row in 0..5 {
        for col in 0..8 {
            let expected = (glyph[row] >> (7 - col)) & 1;
            assert_eq!(processor.vram[row * CHIP8_SCREEN_WIDTH + col], expected);
        }
    }
    assert_eq!(processor.vram[5 * CHIP8_SCREEN_WIDTH], 0);
    assert_eq!(processor.reg[0xF], 0);
    assert!(signals.display);
    assert!(!signals.clear);
    assert!(processor.display_flag && !processor.clear_flag);
}

#[test]
fn scenario_delay_timer_stops_at_zero() {
    let mut processor = Processor::new();
    processor.load(&[0x60, 0x00, 0x60, 0x00]);
    processor.delay_timer = 1;
    processor.emulate_cycle(&get_keypad());
    assert_eq!(processor.delay_timer, 0);
    processor.emulate_cycle(&get_keypad());
    assert_eq!(processor.delay_timer, 0);
}

#[test]
fn scenario_nested_calls_return_in_order() {
    let mut processor = Processor::new();
    let keys = get_keypad();
    write_opcode(&mut processor, 0x200, 0x2300);
    write_opcode(&mut processor, 0x300, 0x2400);
    write_opcode(&mut processor, 0x400, 0x00EE);
    write_opcode(&mut processor, 0x302, 0x00EE);
    processor.emulate_cycle(&keys);
    assert_eq!(processor.pc, 0x300);
    processor.emulate_cycle(&keys);
    assert_eq!(processor.pc, 0x400);
    assert_eq!(processor.sp, 2);
    processor.emulate_cycle(&keys);
    assert_eq!(processor.pc, 0x302);
    processor.emulate_cycle(&keys);
    assert_eq!(processor.pc, 0x202);
    assert_eq!(processor.sp, 0);
}

#[test]
fn call_then_return_restores_pc() {
    let mut processor = build_processor();
    let keys = get_keypad();
    processor.pc = 0x234;
    processor.execute_opcode(0x2ABC, &keys, 0);
    assert_eq!(processor.pc, 0xABC);
    processor.execute_opcode(0x00EE, &keys, 0);
    assert_eq!(processor.pc, 0x236);
    assert_eq!(processor.sp, 0);
}

#[test]
fn return_on_empty_stack_is_reported_and_skipped() {
    let mut processor = Processor::new();
    processor.load(&[0x00, 0xEE]);
    let signals = processor.emulate_cycle(&get_keypad());
    assert_eq!(signals.fault, Some(Fault::StackUnderflow(0x00EE)));
    assert_eq!(processor.pc, 0x202);
    assert_eq!(processor.sp, 0);
}

#[test]
fn call_on_full_stack_is_reported_and_skipped() {
    let mut processor = build_processor();
    let keys = get_keypad();
    processor.sp = 16;
    processor.execute_opcode(0x2300, &keys, 0);
    assert_eq!(processor.fault, Some(Fault::StackOverflow(0x2300)));
    assert_eq!(processor.pc, 0x202);
    assert_eq!(processor.sp, 16);
}

#[test]
fn invalid_opcodes_are_reported_and_skipped() {
    for opcode in [0x0123u16, 0x8AB8, 0xE1FF, 0xF1FF] {
        let mut processor = Processor::new();
        processor.load(&[(opcode >> 8) as u8, (opcode & 0xFF) as u8]);
        let signals = processor.emulate_cycle(&get_keypad());
        assert_eq!(signals.fault, Some(Fault::InvalidOpcode(opcode)));
        assert_eq!(processor.pc, 0x202);
        assert_eq!(processor.reg, [0; 16]);
    }
}

#[test]
fn add_immediate_leaves_vf() {
    let mut processor = build_processor();
    let keys = get_keypad();
    processor.reg[3] = 0xF0;
    processor.reg[0xF] = 0x42;
    processor.execute_opcode(0x7320, &keys, 0);
    assert_eq!(processor.reg[3], 0x10);
    assert_eq!(processor.reg[0xF], 0x42);
}

#[test]
fn register_logic() {
    let keys = get_keypad();
    let cases = [
        (0x8120u16, 0b1100u8, 0b1010u8, 0b1010u8),
        (0x8121, 0b1100, 0b1010, 0b1110),
        (0x8122, 0b1100, 0b1010, 0b1000),
        (0x8123, 0b1100, 0b1010, 0b0110),
    ];
    for (opcode, vx, vy, expected) in cases {
        let mut processor = build_processor();
        processor.reg[1] = vx;
        processor.reg[2] = vy;
        processor.execute_opcode(opcode, &keys, 0);
        assert_eq!(processor.reg[1], expected);
        assert_eq!(processor.reg[2], vy);
        assert_eq!(processor.pc, 0x202);
    }
}

#[test]
fn add_registers_sets_carry() {
    let keys = get_keypad();
    let mut processor = build_processor();
    processor.reg[1] = 200;
    processor.reg[2] = 100;
    processor.execute_opcode(0x8124, &keys, 0);
    assert_eq!(processor.reg[1], 44);
    assert_eq!(processor.reg[0xF], 1);

    let mut processor = build_processor();
    processor.reg[1] = 155;
    processor.reg[2] = 100;
    processor.reg[0xF] = 1;
    processor.execute_opcode(0x8124, &keys, 0);
    assert_eq!(processor.reg[1], 255);
    assert_eq!(processor.reg[0xF], 0);
}

#[test]
fn subtract_registers_sets_not_borrow() {
    let keys = get_keypad();
    let mut processor = build_processor();
    processor.reg[1] = 10;
    processor.reg[2] = 3;
    processor.execute_opcode(0x8125, &keys, 0);
    assert_eq!(processor.reg[1], 7);
    assert_eq!(processor.reg[0xF], 1);

    let mut processor = build_processor();
    processor.reg[1] = 3;
    processor.reg[2] = 10;
    processor.execute_opcode(0x8125, &keys, 0);
    assert_eq!(processor.reg[1], 249);
    assert_eq!(processor.reg[0xF], 0);

    let mut processor = build_processor();
    processor.reg[1] = 5;
    processor.reg[2] = 5;
    processor.execute_opcode(0x8125, &keys, 0);
    assert_eq!(processor.reg[1], 0);
    assert_eq!(processor.reg[0xF], 0);
}

#[test]
fn reverse_subtract_sets_not_borrow() {
    let keys = get_keypad();
    let mut processor = build_processor();
    processor.reg[1] = 3;
    processor.reg[2] = 10;
    processor.execute_opcode(0x8127, &keys, 0);
    assert_eq!(processor.reg[1], 7);
    assert_eq!(processor.reg[0xF], 1);

    let mut processor = build_processor();
    processor.reg[1] = 10;
    processor.reg[2] = 3;
    processor.execute_opcode(0x8127, &keys, 0);
    assert_eq!(processor.reg[1], 249);
    assert_eq!(processor.reg[0xF], 0);
}

#[test]
fn shifts_set_vf_to_the_bit_shifted_out() {
    let keys = get_keypad();
    let mut processor = build_processor();
    processor.reg[1] = 0b1000_0011;
    processor.execute_opcode(0x8126, &keys, 0);
    assert_eq!(processor.reg[1], 0b0100_0001);
    assert_eq!(processor.reg[0xF], 1);

    let mut processor = build_processor();
    processor.reg[1] = 0b1000_0011;
    processor.execute_opcode(0x812E, &keys, 0);
    assert_eq!(processor.reg[1], 0b0000_0110);
    assert_eq!(processor.reg[0xF], 1);

    let mut processor = build_processor();
    processor.reg[1] = 0b0100_0010;
    processor.execute_opcode(0x812E, &keys, 0);
    assert_eq!(processor.reg[1], 0b1000_0100);
    assert_eq!(processor.reg[0xF], 0);
}

#[test]
fn skip_if_registers_differ() {
    let keys = get_keypad();
    let mut processor = build_processor();
    processor.reg[1] = 1;
    processor.execute_opcode(0x9120, &keys, 0);
    assert_eq!(processor.pc, 0x204);
    processor.reg[2] = 1;
    processor.execute_opcode(0x9120, &keys, 0);
    assert_eq!(processor.pc, 0x206);
}

#[test]
fn index_and_offset_jump() {
    let keys = get_keypad();
    let mut processor = build_processor();
    processor.execute_opcode(0xA123, &keys, 0);
    assert_eq!(processor.i, 0x123);
    processor.reg[0] = 0x10;
    processor.execute_opcode(0xB300, &keys, 0);
    assert_eq!(processor.pc, 0x310);
}

#[test]
fn offset_jump_wraps_within_memory() {
    let keys = get_keypad();
    let mut processor = build_processor();
    processor.reg[0] = 0x20;
    processor.execute_opcode(0xBFF0, &keys, 0);
    assert_eq!(processor.pc, 0x010);
}

#[test]
fn random_byte_is_masked() {
    let keys = get_keypad();
    let mut processor = build_processor();
    processor.execute_opcode(0xC30F, &keys, 0xAB);
    assert_eq!(processor.reg[3], 0x0B);

    let mut processor = Processor::new();
    processor.reg[3] = 0xFF;
    processor.load(&[0xC3, 0x00]);
    processor.emulate_cycle(&keys);
    assert_eq!(processor.reg[3], 0);
}

#[test]
fn key_skips() {
    let mut keys = get_keypad();
    keys.pressed[0xA] = true;
    let mut processor = build_processor();
    processor.reg[4] = 0xA;
    processor.execute_opcode(0xE49E, &keys, 0);
    assert_eq!(processor.pc, 0x204);
    processor.execute_opcode(0xE4A1, &keys, 0);
    assert_eq!(processor.pc, 0x206);

    processor.reg[4] = 0xB;
    processor.execute_opcode(0xE49E, &keys, 0);
    assert_eq!(processor.pc, 0x208);
    processor.execute_opcode(0xE4A1, &keys, 0);
    assert_eq!(processor.pc, 0x20C);
}

#[test]
fn key_value_out_of_range_is_never_pressed() {
    let mut keys = get_keypad();
    keys.pressed = [true; 16];
    let mut processor = build_processor();
    processor.reg[4] = 0x10;
    processor.execute_opcode(0xE49E, &keys, 0);
    assert_eq!(processor.pc, 0x202);
    processor.execute_opcode(0xE4A1, &keys, 0);
    assert_eq!(processor.pc, 0x206);
}

#[test]
fn wait_for_key_holds_the_cycle() {
    let mut processor = Processor::new();
    processor.load(&[0xF5, 0x0A]);
    processor.delay_timer = 3;
    let mut keys = get_keypad();
    let signals = processor.emulate_cycle(&keys);
    assert!(signals.awaiting_key);
    assert_eq!(processor.pc, 0x200);
    assert_eq!(processor.delay_timer, 3);

    keys.key_press = Some(0x20);
    let signals = processor.emulate_cycle(&keys);
    assert!(signals.awaiting_key);
    assert_eq!(processor.pc, 0x200);

    keys.key_press = Some(0xC);
    let signals = processor.emulate_cycle(&keys);
    assert!(!signals.awaiting_key);
    assert_eq!(processor.reg[5], 0xC);
    assert_eq!(processor.ram[5], 0x20);
    assert_eq!(processor.pc, 0x202);
    assert_eq!(processor.delay_timer, 2);
}

#[test]
fn timer_registers() {
    let keys = get_keypad();
    let mut processor = build_processor();
    processor.reg[2] = 42;
    processor.execute_opcode(0xF215, &keys, 0);
    assert_eq!(processor.delay_timer, 42);
    processor.execute_opcode(0xF218, &keys, 0);
    assert_eq!(processor.sound_timer, 42);
    processor.delay_timer = 17;
    processor.execute_opcode(0xF307, &keys, 0);
    assert_eq!(processor.reg[3], 17);
}

#[test]
fn add_to_index() {
    let keys = get_keypad();
    let mut processor = build_processor();
    processor.i = 0x100;
    processor.reg[2] = 0x22;
    processor.execute_opcode(0xF21E, &keys, 0);
    assert_eq!(processor.i, 0x122);
    assert_eq!(processor.reg[0xF], 0);

    processor.i = 0xFFFF;
    processor.reg[2] = 2;
    processor.execute_opcode(0xF21E, &keys, 0);
    assert_eq!(processor.i, 1);
}

#[test]
fn glyph_address_comes_from_register() {
    let keys = get_keypad();
    let mut processor = build_processor();
    processor.reg[2] = 0xA;
    processor.execute_opcode(0xF229, &keys, 0);
    assert_eq!(processor.i, 50);
    assert_eq!(processor.ram[50], 0xF0);
}

#[test]
fn bcd_digits() {
    let keys = get_keypad();
    let mut processor = build_processor();
    processor.i = 0x300;
    processor.reg[6] = 254;
    processor.execute_opcode(0xF633, &keys, 0);
    assert_eq!(&processor.ram[0x300..0x303], &[2, 5, 4]);

    processor.reg[6] = 7;
    processor.execute_opcode(0xF633, &keys, 0);
    assert_eq!(&processor.ram[0x300..0x303], &[0, 0, 7]);
}

#[test]
fn store_and_load_registers() {
    let keys = get_keypad();
    let mut processor = build_processor();
    processor.i = 0x300;
    for k in 0..16 {
        processor.reg[k] = (k as u8) * 3 + 1;
    }
    processor.execute_opcode(0xF355, &keys, 0);
    assert_eq!(&processor.ram[0x300..0x305], &[1, 4, 7, 10, 0]);
    assert_eq!(processor.i, 0x300);

    processor.reg = [0; 16];
    processor.execute_opcode(0xF265, &keys, 0);
    assert_eq!(&processor.reg[0..4], &[1, 4, 7, 0]);
    assert_eq!(processor.i, 0x300);
}

#[test]
fn draw_twice_restores_framebuffer() {
    let keys = get_keypad();
    let mut processor = build_processor();
    processor.i = 0;
    processor.reg[1] = 10;
    processor.reg[2] = 3;
    processor.execute_opcode(0xD125, &keys, 0);
    assert_eq!(processor.reg[0xF], 0);
    assert_eq!(processor.vram[3 * CHIP8_SCREEN_WIDTH + 10], 1);
    processor.execute_opcode(0xD125, &keys, 0);
    assert_eq!(processor.vram, [0; CHIP8_SCREEN_CELLS]);
    assert_eq!(processor.reg[0xF], 1);
}

#[test]
fn draw_collision_flag() {
    let keys = get_keypad();
    let mut processor = build_processor();
    processor.ram[0x300] = 0x80;
    processor.i = 0x300;
    processor.vram[0] = 1;
    processor.execute_opcode(0xD011, &keys, 0);
    assert_eq!(processor.vram[0], 0);
    assert_eq!(processor.reg[0xF], 1);
    processor.vram[0] = 1;
    processor.execute_opcode(0xD011, &keys, 0);
    processor.execute_opcode(0xD011, &keys, 0);
    assert_eq!(processor.vram[0], 1);
    assert_eq!(processor.reg[0xF], 0);
}

#[test]
fn draw_clips_at_the_edges() {
    let keys = get_keypad();
    let mut processor = build_processor();
    processor.ram[0x300] = 0xFF;
    processor.ram[0x301] = 0xFF;
    processor.i = 0x300;
    processor.reg[1] = 60;
    processor.reg[2] = 31;
    processor.execute_opcode(0xD122, &keys, 0);
    let lit: usize = processor.vram.iter().map(|&p| p as usize).sum();
    assert_eq!(lit, 4);
    for col in 60..64 {
        assert_eq!(processor.vram[31 * CHIP8_SCREEN_WIDTH + col], 1);
    }
    assert_eq!(processor.vram[0], 0);
}

#[test]
fn draw_wraps_the_origin() {
    let keys = get_keypad();
    let mut processor = build_processor();
    processor.ram[0x300] = 0x80;
    processor.i = 0x300;
    processor.reg[1] = 64 + 5;
    processor.reg[2] = 32 + 2;
    processor.execute_opcode(0xD121, &keys, 0);
    assert_eq!(processor.vram[2 * CHIP8_SCREEN_WIDTH + 5], 1);
}

#[test]
fn clear_then_draw_signals() {
    let mut processor = Processor::new();
    processor.load(&[0x00, 0xE0, 0xD0, 0x05]);
    processor.vram[100] = 1;
    let keys = get_keypad();
    let signals = processor.emulate_cycle(&keys);
    assert!(signals.clear && !signals.display);
    assert_eq!(processor.vram, [0; CHIP8_SCREEN_CELLS]);
    let signals = processor.emulate_cycle(&keys);
    assert!(signals.display && !signals.clear);
}

#[test]
fn skip_if_helper() {
    assert_eq!(ProgramCounter::skip_if(true), ProgramCounter::Skip);
    assert_eq!(ProgramCounter::skip_if(false), ProgramCounter::Next);
}

#[test]
fn decode_fields() {
    assert_eq!(Processor::get_x(0xD123), 1);
    assert_eq!(Processor::get_y(0xD123), 2);
    assert_eq!(Processor::get_00n(0xD123), 3);
    assert_eq!(Processor::get_0nn(0xD123), 0x23);
    assert_eq!(Processor::get_nnn(0xD123), 0x123);
}

#[test]
fn family_zero_decodes_the_whole_word() {
    let keys = get_keypad();
    let mut processor = build_processor();
    processor.vram[7] = 1;
    processor.execute_opcode(0x01E0, &keys, 0);
    assert_eq!(processor.fault, Some(Fault::InvalidOpcode(0x01E0)));
    assert_eq!(processor.vram[7], 1);
    assert!(!processor.clear_flag);
    assert_eq!(processor.pc, 0x202);

    processor.sp = 1;
    processor.stack[0] = 0x400;
    processor.execute_opcode(0x01EE, &keys, 0);
    assert_eq!(processor.fault, Some(Fault::InvalidOpcode(0x01EE)));
    assert_eq!(processor.sp, 1);
    assert_eq!(processor.pc, 0x204);
}

#[test]
fn register_compare_needs_zero_low_nibble() {
    let keys = get_keypad();
    let mut processor = build_processor();
    processor.execute_opcode(0x5281, &keys, 0);
    assert_eq!(processor.fault, Some(Fault::InvalidOpcode(0x5281)));
    assert_eq!(processor.pc, 0x202);

    processor.reg[1] = 1;
    processor.execute_opcode(0x9123, &keys, 0);
    assert_eq!(processor.fault, Some(Fault::InvalidOpcode(0x9123)));
    assert_eq!(processor.pc, 0x204);
}
