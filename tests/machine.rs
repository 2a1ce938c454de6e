use chip8::bus::{Bus, FONTSET};
use chip8::cpu::{Cpu, Fault, FaultKind};
use chip8::display::{buffer_to_u32, Display, COLOR_OFF, COLOR_ON, N_PIXELS, SCREEN_WIDTH};
use chip8::instruction::Instruction;
use chip8::keypad::Keypad;
use chip8::ram::{Ram, RomTooLarge, PROGRAM_START, RAM_SIZE};

fn words(program: &[u16]) -> Vec<u8> {
    let mut bytes = Vec::new();
    for w in program {
        bytes.push((w >> 8) as u8);
        bytes.push((w & 0xFF) as u8);
    }
    bytes
}

fn bus_with(program: &[u16]) -> Bus {
    let mut bus = Bus::new();
    bus.load_rom(&words(program)).unwrap();
    bus
}

fn run(bus: &mut Bus, ticks: usize) {
    for _ in 0..ticks {
        bus.tick_cpu().unwrap();
    }
}

fn lit_pixels(d: &Display) -> Vec<usize> {
    (0..N_PIXELS).filter(|&p| d.buffer[p]).collect()
}

#[test]
fn load_and_tick_twice_sets_v0_and_index() {
    let mut bus = bus_with(&[0x6005, 0xA050]);
    run(&mut bus, 2);
    assert_eq!(bus.cpu.v[0], 0x05);
    assert_eq!(bus.cpu.i, 0x050);
    assert_eq!(bus.cpu.pc, 0x204);
}

#[test]
fn add_with_carry_boundaries() {
    let mut bus = bus_with(&[0x60FF, 0x6101, 0x8014]);
    run(&mut bus, 3);
    assert_eq!(bus.cpu.v[0], 0x00);
    assert_eq!(bus.cpu.v[0xF], 1);

    let mut bus = bus_with(&[0x60FE, 0x6101, 0x6F07, 0x8014]);
    run(&mut bus, 4);
    assert_eq!(bus.cpu.v[0], 0xFF);
    assert_eq!(bus.cpu.v[0xF], 0);
}

#[test]
fn sub_borrow_boundaries() {
    let mut bus = bus_with(&[0x6001, 0x6102, 0x8015]);
    run(&mut bus, 3);
    assert_eq!(bus.cpu.v[0], 0xFF);
    assert_eq!(bus.cpu.v[0xF], 0);

    let mut bus = bus_with(&[0x6002, 0x6102, 0x8015]);
    run(&mut bus, 3);
    assert_eq!(bus.cpu.v[0], 0x00);
    assert_eq!(bus.cpu.v[0xF], 1);

    let mut bus = bus_with(&[0x6003, 0x6105, 0x8017]);
    run(&mut bus, 3);
    assert_eq!(bus.cpu.v[0], 0x02);
    assert_eq!(bus.cpu.v[0xF], 1);

    let mut bus = bus_with(&[0x6005, 0x6103, 0x8017]);
    run(&mut bus, 3);
    assert_eq!(bus.cpu.v[0], 0xFE);
    assert_eq!(bus.cpu.v[0xF], 0);
}

#[test]
fn shifts_capture_shifted_bit_for_every_value() {
    for value in 0..=255u16 {
        let mut bus = bus_with(&[0x6000 | value, 0x6F55, 0x8006]);
        run(&mut bus, 3);
        assert_eq!(bus.cpu.v[0], (value as u8) >> 1);
        assert_eq!(bus.cpu.v[0xF], (value as u8) & 1);

        let mut bus = bus_with(&[0x6000 | value, 0x6FAA, 0x800E]);
        run(&mut bus, 3);
        assert_eq!(bus.cpu.v[0], (value as u8) << 1);
        assert_eq!(bus.cpu.v[0xF], (value as u8) >> 7);
    }
}

#[test]
fn shift_of_flag_register_keeps_the_shifted_bit() {
    let mut bus = bus_with(&[0x6F03, 0x8F06]);
    run(&mut bus, 2);
    assert_eq!(bus.cpu.v[0xF], 1);
}

#[test]
fn draw_twice_restores_screen() {
    // Glyph 0 at (10, 5), drawn twice.
    let mut bus = bus_with(&[0x600A, 0x6105, 0xA050, 0xD015, 0xD015]);
    run(&mut bus, 4);
    let lit = lit_pixels(&bus.display);
    assert_eq!(lit.len(), 14);
    assert!(bus.display.buffer[10 + 5 * SCREEN_WIDTH]);
    assert_eq!(bus.cpu.v[0xF], 0);
    run(&mut bus, 1);
    assert!(lit_pixels(&bus.display).is_empty());
    assert_eq!(bus.cpu.v[0xF], 1);
}

#[test]
fn empty_sprite_twice_reports_no_collision() {
    let mut bus = bus_with(&[0x6000, 0x6100, 0xA300, 0xD013, 0xD013]);
    run(&mut bus, 4);
    assert_eq!(bus.cpu.v[0xF], 0);
    run(&mut bus, 1);
    assert_eq!(bus.cpu.v[0xF], 0);
    assert!(lit_pixels(&bus.display).is_empty());
}

#[test]
fn overlapping_sprites_set_flag() {
    // Glyph 0 at (0, 0), then glyph 1 at (2, 0): they share pixel (3, 1).
    let mut bus = bus_with(&[0x6000, 0x6100, 0x6202, 0xA050, 0xD015, 0xA055, 0xD215]);
    run(&mut bus, 5);
    assert_eq!(bus.cpu.v[0xF], 0);
    run(&mut bus, 2);
    assert_eq!(bus.cpu.v[0xF], 1);
    assert!(!bus.display.buffer[3 + SCREEN_WIDTH]);
}

#[test]
fn sprite_wraps_horizontally() {
    // A full row (0xFF) at x = 60, y = 3.
    let mut bus = bus_with(&[0x603C, 0x6103, 0xA300, 0xD011]);
    bus.ram.write_byte(0x300, 0xFF);
    run(&mut bus, 4);
    let row = 3 * SCREEN_WIDTH;
    let expected: Vec<usize> = vec![row, row + 1, row + 2, row + 3, row + 60, row + 61, row + 62, row + 63];
    assert_eq!(lit_pixels(&bus.display), expected);
}

#[test]
fn sprite_wraps_vertically() {
    // Two rows at y = 31: the second lands on row 0.
    let mut bus = bus_with(&[0x6000, 0x611F, 0xA300, 0xD012]);
    bus.ram.write_byte(0x300, 0x80);
    bus.ram.write_byte(0x301, 0x80);
    run(&mut bus, 4);
    assert_eq!(lit_pixels(&bus.display), vec![0, 31 * SCREEN_WIDTH]);
}

#[test]
fn sixteen_nested_calls_then_overflow() {
    // Each instruction at 0x200 + 2k calls the next one.
    let program: Vec<u16> = (0..17u16).map(|k| 0x2000 | (0x202 + 2 * k)).collect();
    let mut bus = bus_with(&program);
    run(&mut bus, 16);
    assert_eq!(bus.cpu.sp, 16);
    assert_eq!(bus.cpu.pc, 0x220);
    let err = bus.tick_cpu().unwrap_err();
    assert_eq!(err, Fault { kind: FaultKind::StackOverflow, opcode: 0x2222, pc: 0x220 });
    assert_eq!(bus.cpu.sp, 16);
    assert_eq!(bus.cpu.pc, 0x220);
}

#[test]
fn return_with_empty_stack_underflows() {
    let mut bus = bus_with(&[0x00EE]);
    let err = bus.tick_cpu().unwrap_err();
    assert_eq!(err, Fault { kind: FaultKind::StackUnderflow, opcode: 0x00EE, pc: 0x200 });
    assert_eq!(bus.cpu.pc, 0x200);
}

#[test]
fn call_and_return() {
    let mut bus = bus_with(&[0x2206, 0x6107, 0x0000, 0x6009, 0x00EE]);
    run(&mut bus, 4);
    assert_eq!(bus.cpu.v[0], 9);
    assert_eq!(bus.cpu.v[1], 7);
    assert_eq!(bus.cpu.sp, 0);
    assert_eq!(bus.cpu.pc, 0x204);
}

#[test]
fn bcd_of_157() {
    let mut bus = bus_with(&[0x609D, 0xA300, 0xF033]);
    run(&mut bus, 3);
    assert_eq!(bus.ram.read_byte(0x300), 1);
    assert_eq!(bus.ram.read_byte(0x301), 5);
    assert_eq!(bus.ram.read_byte(0x302), 7);
}

#[test]
fn block_transfer_is_inclusive() {
    let mut bus = bus_with(&[0x6011, 0x6122, 0x6233, 0x6344, 0x6455, 0xA300, 0xF355]);
    run(&mut bus, 7);
    assert_eq!(bus.ram.mem[0x300..0x305], [0x11, 0x22, 0x33, 0x44, 0x00]);

    let mut bus = bus_with(&[0xA300, 0xF365]);
    for k in 0..6u16 {
        bus.ram.write_byte(0x300 + k, 0xA0 + k as u8);
    }
    run(&mut bus, 2);
    assert_eq!(bus.cpu.v[0..5], [0xA0, 0xA1, 0xA2, 0xA3, 0x00]);
}

#[test]
fn font_address_of_digit_a() {
    let mut bus = bus_with(&[0x650A, 0xF529]);
    run(&mut bus, 2);
    assert_eq!(bus.cpu.i, 0x82);
}

#[test]
fn font_is_loaded_at_construction() {
    let bus = Bus::new();
    for k in 0..80u16 {
        assert_eq!(bus.ram.read_byte(0x50 + k), FONTSET[k as usize]);
    }
    assert_eq!(bus.ram.read_byte(0x4F), 0);
    assert_eq!(bus.ram.read_byte(0xA0), 0);
    assert_eq!(bus.ram.read_byte(0x82), 0xF0);
    assert_eq!(bus.cpu.pc, 0x200);
}

#[test]
fn skips() {
    let mut bus = bus_with(&[0x6005, 0x3005, 0x0000, 0x4005, 0x6101]);
    run(&mut bus, 3);
    assert_eq!(bus.cpu.pc, 0x208);
    run(&mut bus, 1);
    assert_eq!(bus.cpu.v[1], 1);

    let mut bus = bus_with(&[0x6005, 0x6105, 0x5010, 0x0000, 0x9010, 0x6201]);
    run(&mut bus, 5);
    assert_eq!(bus.cpu.v[2], 1);
}

#[test]
fn jumps() {
    let mut bus = bus_with(&[0x1300]);
    run(&mut bus, 1);
    assert_eq!(bus.cpu.pc, 0x300);

    let mut bus = bus_with(&[0x6010, 0xB300]);
    run(&mut bus, 2);
    assert_eq!(bus.cpu.pc, 0x310);
}

#[test]
fn logic_and_immediates() {
    let mut bus = bus_with(&[0x600C, 0x610A, 0x8011, 0x6206, 0x8212, 0x6306, 0x8313, 0x8430, 0x74FF]);
    run(&mut bus, 9);
    assert_eq!(bus.cpu.v[0], 0x0E);
    assert_eq!(bus.cpu.v[2], 0x02);
    assert_eq!(bus.cpu.v[3], 0x06 ^ 0x0A);
    assert_eq!(bus.cpu.v[4], 0x0B);
}

#[test]
fn add_immediate_wraps_without_flag() {
    let mut bus = bus_with(&[0x60FF, 0x6F07, 0x7002]);
    run(&mut bus, 3);
    assert_eq!(bus.cpu.v[0], 0x01);
    assert_eq!(bus.cpu.v[0xF], 0x07);
}

#[test]
fn index_increment_wraps() {
    let mut bus = bus_with(&[0xAFFF, 0x6010, 0xF01E]);
    run(&mut bus, 3);
    assert_eq!(bus.cpu.i, 0x100F);
    bus.cpu.i = 0xFFFF;
    bus.cpu.pc = 0x204;
    run(&mut bus, 1);
    assert_eq!(bus.cpu.i, 0x000F);
}

#[test]
fn timers_are_read_written_and_counted_down() {
    let mut bus = bus_with(&[0x6003, 0xF015, 0xF018, 0xF107]);
    run(&mut bus, 4);
    assert_eq!(bus.cpu.delay_timer, 3);
    assert_eq!(bus.cpu.sound_timer, 3);
    assert_eq!(bus.cpu.v[1], 3);
    for _ in 0..5 {
        bus.tick_timers();
    }
    assert_eq!(bus.cpu.delay_timer, 0);
    assert_eq!(bus.cpu.sound_timer, 0);
}

#[test]
fn key_skips() {
    let mut bus = bus_with(&[0x6007, 0xE09E, 0x0000, 0xE0A1, 0x6101]);
    bus.keypad.set_pressed(7, true);
    run(&mut bus, 3);
    assert_eq!(bus.cpu.pc, 0x208);
    run(&mut bus, 1);
    assert_eq!(bus.cpu.v[1], 1);
}

#[test]
fn key_out_of_range_faults() {
    let mut bus = bus_with(&[0x6010, 0xE09E]);
    run(&mut bus, 1);
    let err = bus.tick_cpu().unwrap_err();
    assert_eq!(err, Fault { kind: FaultKind::KeyOutOfRange, opcode: 0xE09E, pc: 0x202 });
    assert_eq!(bus.cpu.pc, 0x202);
}

#[test]
fn wait_for_key_spins_then_takes_lowest() {
    let mut bus = bus_with(&[0xF30A]);
    run(&mut bus, 3);
    assert_eq!(bus.cpu.pc, 0x200);
    assert_eq!(bus.cpu.v[3], 0);
    bus.keypad.set_pressed(0xC, true);
    bus.keypad.set_pressed(0x9, true);
    run(&mut bus, 1);
    assert_eq!(bus.cpu.pc, 0x202);
    assert_eq!(bus.cpu.v[3], 0x9);
}

#[test]
fn clear_screen_instruction() {
    let mut bus = bus_with(&[0xA050, 0xD015, 0x00E0]);
    run(&mut bus, 2);
    assert!(!lit_pixels(&bus.display).is_empty());
    run(&mut bus, 1);
    assert!(lit_pixels(&bus.display).is_empty());
}

#[test]
fn undefined_opcode_is_fatal_and_changes_nothing() {
    let mut bus = bus_with(&[0x6001, 0x8008]);
    run(&mut bus, 1);
    let err = bus.tick_cpu().unwrap_err();
    assert_eq!(err, Fault { kind: FaultKind::InvalidOpcode, opcode: 0x8008, pc: 0x202 });
    assert_eq!(bus.cpu.pc, 0x202);
    assert_eq!(bus.cpu.v[0], 1);

    for op in [0x0123u16, 0x5001, 0x9001, 0xE0FF, 0xF0FF, 0x800F] {
        let mut bus = bus_with(&[op]);
        assert_eq!(bus.tick_cpu().unwrap_err().kind, FaultKind::InvalidOpcode);
    }
}

#[test]
fn memory_past_the_end_faults() {
    let mut bus = bus_with(&[0xAFFE, 0xF033]);
    run(&mut bus, 1);
    let err = bus.tick_cpu().unwrap_err();
    assert_eq!(err.kind, FaultKind::AddressOutOfRange);
    assert_eq!(bus.cpu.pc, 0x202);

    let mut bus = bus_with(&[0x1FFF]);
    run(&mut bus, 1);
    let err = bus.tick_cpu().unwrap_err();
    assert_eq!(err, Fault { kind: FaultKind::AddressOutOfRange, opcode: 0, pc: 0xFFF });

    let mut bus = bus_with(&[0xAFFC, 0xD005]);
    run(&mut bus, 1);
    assert_eq!(bus.tick_cpu().unwrap_err().kind, FaultKind::AddressOutOfRange);
    assert!(lit_pixels(&bus.display).is_empty());
}

#[test]
fn random_instruction_is_masked() {
    let mut bus = bus_with(&[0x6177, 0xC100, 0xC20F]);
    run(&mut bus, 3);
    assert_eq!(bus.cpu.v[1], 0);
    assert!(bus.cpu.v[2] <= 0x0F);
}

#[test]
fn execute_uses_given_random_byte() {
    let mut cpu = Cpu::new();
    let mut ram = Ram::new();
    let mut display = Display::new();
    let mut keypad = Keypad::new();
    cpu.execute(Instruction::Rnd { x: 4, byte: 0x3C }, 0xA5, &mut ram, &mut display, &mut keypad).unwrap();
    assert_eq!(cpu.v[4], 0x24);
}

#[test]
fn fetch_reads_big_endian_and_advances() {
    let mut cpu = Cpu::new();
    let mut ram = Ram::new();
    ram.write_byte(0x200, 0xA1);
    ram.write_byte(0x201, 0x23);
    assert_eq!(cpu.fetch(&ram), Ok(0xA123));
    assert_eq!(cpu.pc, 0x202);
}

#[test]
fn decode_table() {
    assert_eq!(Instruction::decode(0x0000), Some(Instruction::Nop));
    assert_eq!(Instruction::decode(0x00E0), Some(Instruction::Cls));
    assert_eq!(Instruction::decode(0x00EE), Some(Instruction::Ret));
    assert_eq!(Instruction::decode(0x1ABC), Some(Instruction::Jp { addr: 0xABC }));
    assert_eq!(Instruction::decode(0x8AB4), Some(Instruction::AddReg { x: 0xA, y: 0xB }));
    assert_eq!(Instruction::decode(0xD12F), Some(Instruction::Drw { x: 1, y: 2, n: 0xF }));
    assert_eq!(Instruction::decode(0xF00A), Some(Instruction::LdKey { x: 0 }));
    assert_eq!(Instruction::decode(0xF765), Some(Instruction::LoadRegs { x: 7 }));
    assert_eq!(Instruction::decode(0xF10B), None);
    assert_eq!(Instruction::decode(0x5121), None);
}

#[test]
fn rom_too_large_is_rejected() {
    let mut bus = Bus::new();
    let rom = vec![0xAAu8; RAM_SIZE - PROGRAM_START + 1];
    assert_eq!(bus.load_rom(&rom), Err(RomTooLarge { rom_len: 3585, capacity: 3584 }));
    assert_eq!(bus.ram.read_byte(0x200), 0);

    let rom = vec![0xAAu8; RAM_SIZE - PROGRAM_START];
    assert_eq!(bus.load_rom(&rom), Ok(()));
    assert_eq!(bus.ram.read_byte(0x200), 0xAA);
    assert_eq!(bus.ram.read_byte(0xFFF), 0xAA);
    assert_eq!(bus.ram.read_byte(0x1FF), 0);
}

#[test]
fn keypad_and_display_basics() {
    let mut keypad = Keypad::new();
    assert!(!keypad.is_pressed(3));
    keypad.set_pressed(3, true);
    assert!(keypad.is_pressed(3));
    keypad.set_pressed(3, false);
    assert!(!keypad.is_pressed(3));

    let mut display = Display::new();
    display.buffer[100] = true;
    display.clear();
    assert!(lit_pixels(&display).is_empty());
}

#[test]
fn frame_colors() {
    let frame = buffer_to_u32(&[true, false, true], 2, 2);
    assert_eq!(frame, vec![COLOR_ON, COLOR_OFF, COLOR_ON, 0]);
    assert_eq!(COLOR_ON, 0xFFFFFFFF);
    assert_eq!(COLOR_OFF, 0xFF000000);
}
