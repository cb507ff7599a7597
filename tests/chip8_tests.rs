use chip8::error::Chip8Error;
use chip8::instruction::{decode, Instruction};
use chip8::keys::create_key_state;
use chip8::machine::Chip8;

fn machine_with(rom: Vec<u8>) -> Chip8 {
    let mut chip8 = Chip8::new();
    chip8.load_rom(rom).unwrap();
    chip8
}

#[test]
fn test_00E0() {
    let rom: Vec<u8> = vec![0x00, 0xE0];

    let mut chip8 = Chip8::new();
    let key_state = create_key_state();
    chip8.load_rom(rom).unwrap();
    chip8.set_pixel(10, 10, 1);

    chip8.exec_cycle(&key_state).unwrap();

    assert_eq!(chip8.display_memory()[10][10], 0);
}

#[test]
fn test_1NNN() {
    let rom: Vec<u8> = vec![0x1A, 0xBC];

    let mut chip8 = Chip8::new();
    let key_state = create_key_state();
    chip8.load_rom(rom).unwrap();

    chip8.exec_cycle(&key_state).unwrap();

    assert_eq!(chip8.pc(), 0xABC);
}

#[test]
fn test_2NNN_and_00EE() {
    let rom: Vec<u8> = vec![0x22, 0x04, 0x00, 0xE0, 0x00, 0xEE];

    let mut chip8 = Chip8::new();
    let key_state = create_key_state();
    chip8.load_rom(rom).unwrap();

    assert_eq!(chip8.stack_pointer(), 0);
    let pc_at_start = chip8.pc();

    chip8.exec_cycle(&key_state).unwrap();

    assert_eq!(chip8.stack_pointer(), 1);
    assert_eq!(chip8.stack()[0], pc_at_start + 2);
    assert_eq!(chip8.pc(), 0x204);

    chip8.exec_cycle(&key_state).unwrap();
    assert_eq!(chip8.stack_pointer(), 0);
    assert_eq!(chip8.pc(), 0x202);
}

#[test]
fn new_machine_holds_font_and_start_address() {
    let chip8 = Chip8::new();
    assert_eq!(chip8.pc(), 0x200);
    assert_eq!(chip8.memory()[0], 0xF0);
    assert_eq!(chip8.memory()[5], 0x20);
    assert_eq!(chip8.memory()[79], 0x80);
    assert_eq!(chip8.memory()[80], 0);
    assert_eq!(chip8.registers(), [0; 16]);
    assert_eq!(chip8.index_register(), 0);
    assert_eq!(chip8.delay_timer(), 0);
    assert_eq!(chip8.sound_timer(), 0);
    assert!(!chip8.draw_flag());
}

#[test]
fn rom_is_copied_to_start_address() {
    let chip8 = machine_with(vec![0xAB, 0xCD, 0xEF]);
    assert_eq!(chip8.memory()[0x200], 0xAB);
    assert_eq!(chip8.memory()[0x201], 0xCD);
    assert_eq!(chip8.memory()[0x202], 0xEF);
    assert_eq!(chip8.memory()[0x203], 0);
}

#[test]
fn rom_of_largest_size_fits_and_one_more_is_refused() {
    let mut chip8 = Chip8::new();
    assert_eq!(chip8.load_rom(vec![7; 4096 - 0x200]), Ok(()));
    assert_eq!(chip8.memory()[4095], 7);
    let mut other = Chip8::new();
    assert_eq!(other.load_rom(vec![7; 4096 - 0x200 + 1]), Err(Chip8Error::RomTooLarge));
    assert_eq!(other.memory()[0x200], 0);
}

#[test]
fn unknown_opcode_is_reported() {
    let mut chip8 = machine_with(vec![0xFF, 0xFF]);
    let keys = create_key_state();
    assert_eq!(chip8.exec_cycle(&keys), Err(Chip8Error::InvalidOpCode(0xFFFF)));
    let mut chip8 = machine_with(vec![0x51, 0x21]);
    assert_eq!(chip8.exec_cycle(&keys), Err(Chip8Error::InvalidOpCode(0x5121)));
}

#[test]
fn return_without_call_underflows() {
    let mut chip8 = machine_with(vec![0x00, 0xEE]);
    let keys = create_key_state();
    assert_eq!(chip8.exec_cycle(&keys), Err(Chip8Error::StackUnderflow));
    assert_eq!(chip8.stack_pointer(), 0);
}

#[test]
fn seventeenth_nested_call_overflows() {
    let mut chip8 = machine_with(vec![0x22, 0x00]);
    let keys = create_key_state();
    for depth in 1..=16 {
        assert_eq!(chip8.exec_cycle(&keys), Ok(false));
        assert_eq!(chip8.stack_pointer(), depth);
    }
    assert_eq!(chip8.exec_cycle(&keys), Err(Chip8Error::StackOverflow));
    assert_eq!(chip8.stack_pointer(), 16);
}

#[test]
fn fetch_past_end_of_memory_fails() {
    let mut chip8 = machine_with(vec![0x1F, 0xFF]);
    let keys = create_key_state();
    chip8.exec_cycle(&keys).unwrap();
    assert_eq!(chip8.pc(), 0xFFF);
    assert_eq!(chip8.exec_cycle(&keys), Err(Chip8Error::MemoryOutOfBounds));
    assert_eq!(chip8.pc(), 0xFFF);
}

#[test]
fn bcd_past_end_of_memory_fails() {
    let mut chip8 = machine_with(vec![0xAF, 0xFE, 0xF0, 0x33]);
    let keys = create_key_state();
    chip8.exec_cycle(&keys).unwrap();
    assert_eq!(chip8.exec_cycle(&keys), Err(Chip8Error::MemoryOutOfBounds));
}

#[test]
fn bcd_stores_three_digits() {
    let mut chip8 = machine_with(vec![0x60, 0x7B, 0xA3, 0x00, 0xF0, 0x33]);
    let keys = create_key_state();
    for _ in 0..3 {
        chip8.exec_cycle(&keys).unwrap();
    }
    assert_eq!(&chip8.memory()[0x300..0x303], &[1, 2, 3]);
    assert_eq!(chip8.index_register(), 0x300);
}

#[test]
fn drawing_twice_erases_and_collides() {
    let mut chip8 = machine_with(vec![0xA0, 0x00, 0xD0, 0x15, 0xD0, 0x15]);
    let keys = create_key_state();
    chip8.exec_cycle(&keys).unwrap();
    assert_eq!(chip8.exec_cycle(&keys), Ok(true));
    assert_eq!(chip8.display_memory()[0][0], 1);
    assert_eq!(chip8.display_memory()[0][3], 1);
    assert_eq!(chip8.display_memory()[0][4], 0);
    assert_eq!(chip8.display_memory()[1][1], 0);
    assert_eq!(chip8.registers()[15], 0);
    assert_eq!(chip8.exec_cycle(&keys), Ok(true));
    assert!(chip8.display_memory().iter().all(|row| row.iter().all(|p| *p == 0)));
    assert_eq!(chip8.registers()[15], 1);
}

#[test]
fn sprite_is_clipped_at_the_edges() {
    // V0 = 62, V1 = 31, I = font glyph 0; draw 5 rows.
    let mut chip8 = machine_with(vec![0x60, 62, 0x61, 31, 0xA0, 0x00, 0xD0, 0x15]);
    let keys = create_key_state();
    for _ in 0..4 {
        chip8.exec_cycle(&keys).unwrap();
    }
    let lit: usize = chip8.display_memory().iter().map(|row| row.iter().filter(|p| **p == 1).count()).sum();
    assert_eq!(lit, 2);
    assert_eq!(chip8.display_memory()[31][62], 1);
    assert_eq!(chip8.display_memory()[31][63], 1);
}

#[test]
fn register_dump_and_load_round_trip() {
    let rom = vec![
        0x60, 0x11, 0x61, 0x22, 0x62, 0x33, 0xA3, 0x00, 0xF2, 0x55, 0x60, 0x00, 0x61, 0x00, 0x62,
        0x00, 0xF2, 0x65,
    ];
    let mut chip8 = machine_with(rom);
    let keys = create_key_state();
    for _ in 0..5 {
        chip8.exec_cycle(&keys).unwrap();
    }
    assert_eq!(&chip8.memory()[0x300..0x303], &[0x11, 0x22, 0x33]);
    for _ in 0..4 {
        chip8.exec_cycle(&keys).unwrap();
    }
    assert_eq!(&chip8.registers()[0..3], &[0x11, 0x22, 0x33]);
    assert_eq!(chip8.index_register(), 0x300);
}

#[test]
fn key_wait_blocks_until_a_key_is_pressed() {
    let mut chip8 = machine_with(vec![0xF3, 0x0A]);
    let mut keys = create_key_state();
    chip8.exec_cycle(&keys).unwrap();
    assert_eq!(chip8.pc(), 0x200);
    chip8.exec_cycle(&keys).unwrap();
    assert_eq!(chip8.pc(), 0x200);
    keys.set_key(9, true);
    keys.set_key(5, true);
    chip8.exec_cycle(&keys).unwrap();
    assert_eq!(chip8.registers()[3], 5);
    assert_eq!(chip8.pc(), 0x202);
}

#[test]
fn key_skips_follow_the_snapshot() {
    // V0 = 7; EX9E then EXA1.
    let rom = vec![0x60, 0x07, 0xE0, 0x9E, 0x00, 0x00, 0xE0, 0xA1];
    let mut keys = create_key_state();
    keys.set_key(7, true);
    let mut chip8 = machine_with(rom.clone());
    chip8.exec_cycle(&keys).unwrap();
    chip8.exec_cycle(&keys).unwrap();
    assert_eq!(chip8.pc(), 0x206);
    chip8.exec_cycle(&keys).unwrap();
    assert_eq!(chip8.pc(), 0x208);

    let released = create_key_state();
    let mut chip8 = machine_with(rom);
    chip8.exec_cycle(&released).unwrap();
    chip8.exec_cycle(&released).unwrap();
    assert_eq!(chip8.pc(), 0x204);
}

#[test]
fn carry_and_borrow_flags() {
    let keys = create_key_state();
    let mut chip8 = machine_with(vec![0x60, 0xFF, 0x61, 0x02, 0x80, 0x14]);
    for _ in 0..3 {
        chip8.exec_cycle(&keys).unwrap();
    }
    assert_eq!(chip8.registers()[0], 1);
    assert_eq!(chip8.registers()[15], 1);

    let mut chip8 = machine_with(vec![0x60, 0x01, 0x61, 0x02, 0x80, 0x15]);
    for _ in 0..3 {
        chip8.exec_cycle(&keys).unwrap();
    }
    assert_eq!(chip8.registers()[0], 255);
    assert_eq!(chip8.registers()[15], 0);

    let mut chip8 = machine_with(vec![0x60, 0x01, 0x61, 0x09, 0x80, 0x17]);
    for _ in 0..3 {
        chip8.exec_cycle(&keys).unwrap();
    }
    assert_eq!(chip8.registers()[0], 8);
    assert_eq!(chip8.registers()[15], 1);
}

#[test]
fn shifts_set_flag_to_dropped_bit() {
    let keys = create_key_state();
    let mut chip8 = machine_with(vec![0x60, 0x81, 0x80, 0x0E]);
    chip8.exec_cycle(&keys).unwrap();
    chip8.exec_cycle(&keys).unwrap();
    assert_eq!(chip8.registers()[0], 0x02);
    assert_eq!(chip8.registers()[15], 1);

    let mut chip8 = machine_with(vec![0x60, 0x81, 0x80, 0x06]);
    chip8.exec_cycle(&keys).unwrap();
    chip8.exec_cycle(&keys).unwrap();
    assert_eq!(chip8.registers()[0], 0x40);
    assert_eq!(chip8.registers()[15], 1);
}

#[test]
fn bitwise_and_immediate_ops() {
    let keys = create_key_state();
    let rom = vec![0x60, 0xF0, 0x61, 0x3C, 0x82, 0x00, 0x82, 0x11, 0x83, 0x00, 0x83, 0x12, 0x84,
        0x00, 0x84, 0x13, 0x70, 0x20];
    let mut chip8 = machine_with(rom);
    for _ in 0..9 {
        chip8.exec_cycle(&keys).unwrap();
    }
    let v = chip8.registers();
    assert_eq!(v[2], 0xFC);
    assert_eq!(v[3], 0x30);
    assert_eq!(v[4], 0xCC);
    assert_eq!(v[0], 0x10);
    assert_eq!(v[15], 0);
}

#[test]
fn skips_on_register_comparisons() {
    let keys = create_key_state();
    let mut chip8 = machine_with(vec![0x60, 0x05, 0x30, 0x05]);
    chip8.exec_cycle(&keys).unwrap();
    chip8.exec_cycle(&keys).unwrap();
    assert_eq!(chip8.pc(), 0x206);

    let mut chip8 = machine_with(vec![0x60, 0x05, 0x40, 0x05]);
    chip8.exec_cycle(&keys).unwrap();
    chip8.exec_cycle(&keys).unwrap();
    assert_eq!(chip8.pc(), 0x204);

    let mut chip8 = machine_with(vec![0x60, 0x05, 0x61, 0x05, 0x50, 0x10, 0x00, 0x00, 0x90, 0x10]);
    for _ in 0..4 {
        chip8.exec_cycle(&keys).unwrap();
    }
    assert_eq!(chip8.pc(), 0x20A);
}

#[test]
fn index_and_jump_with_offset() {
    let keys = create_key_state();
    let mut chip8 = machine_with(vec![0x60, 0x0A, 0xF0, 0x29, 0xF0, 0x1E, 0xB3, 0x00]);
    chip8.exec_cycle(&keys).unwrap();
    chip8.exec_cycle(&keys).unwrap();
    assert_eq!(chip8.index_register(), 50);
    chip8.exec_cycle(&keys).unwrap();
    assert_eq!(chip8.index_register(), 60);
    chip8.exec_cycle(&keys).unwrap();
    assert_eq!(chip8.pc(), 0x30A);
}

#[test]
fn index_addition_wraps_at_sixteen_bits() {
    let keys = create_key_state();
    // I = 0xFFF, then V0 = 0xFF is added to it 250 times, past 0xFFFF.
    let mut rom = vec![0x60, 0xFF, 0xAF, 0xFF];
    for _ in 0..250 {
        rom.extend_from_slice(&[0xF0, 0x1E]);
    }
    let mut chip8 = machine_with(rom);
    for _ in 0..252 {
        chip8.exec_cycle(&keys).unwrap();
    }
    assert_eq!(chip8.index_register(), ((0xFFFu32 + 250 * 0xFF) % 65536) as u16);
}

#[test]
fn timers_count_down_once_per_cycle() {
    let keys = create_key_state();
    let mut chip8 = machine_with(vec![0x60, 0x05, 0xF0, 0x15, 0xF0, 0x18, 0xF1, 0x07]);
    chip8.exec_cycle(&keys).unwrap();
    chip8.exec_cycle(&keys).unwrap();
    assert_eq!(chip8.delay_timer(), 4);
    chip8.exec_cycle(&keys).unwrap();
    assert_eq!(chip8.delay_timer(), 3);
    assert_eq!(chip8.sound_timer(), 4);
    chip8.exec_cycle(&keys).unwrap();
    assert_eq!(chip8.registers()[1], 3);
    assert_eq!(chip8.delay_timer(), 2);
}

#[test]
fn random_byte_is_masked() {
    let keys = create_key_state();
    let mut chip8 = machine_with(vec![0xC0, 0xF0, 0xC1, 0x00]);
    assert_eq!(chip8.exec_cycle_with(&keys, 0xAB), Ok(false));
    assert_eq!(chip8.registers()[0], 0xA0);
    chip8.exec_cycle(&keys).unwrap();
    assert_eq!(chip8.registers()[1], 0);
}

#[test]
fn clear_reports_a_display_change() {
    let keys = create_key_state();
    let mut chip8 = machine_with(vec![0x60, 0x01, 0x00, 0xE0]);
    assert_eq!(chip8.exec_cycle(&keys), Ok(false));
    assert!(!chip8.draw_flag());
    assert_eq!(chip8.exec_cycle(&keys), Ok(true));
    assert!(chip8.draw_flag());
}

#[test]
fn decoding_table() {
    assert_eq!(decode(0x00E0), Some(Instruction::ClearScreen));
    assert_eq!(decode(0x00EE), Some(Instruction::Return));
    assert_eq!(decode(0x1ABC), Some(Instruction::Jump { addr: 0xABC }));
    assert_eq!(decode(0xD123), Some(Instruction::Draw { x: 1, y: 2, n: 3 }));
    assert_eq!(decode(0x8AB6), Some(Instruction::ShiftRight { x: 0xA }));
    assert_eq!(decode(0xC5A7), Some(Instruction::Random { x: 5, nn: 0xA7 }));
    assert_eq!(decode(0xF465), Some(Instruction::LoadRegisters { x: 4 }));
    assert_eq!(decode(0x0123), None);
    assert_eq!(decode(0x5121), None);
    assert_eq!(decode(0x8008), None);
    assert_eq!(decode(0xE0A2), None);
}

#[test]
fn key_state_ignores_unknown_keys() {
    let mut keys = create_key_state();
    keys.set_key(16, true);
    assert!(!keys.is_pressed(16));
    keys.set_key(15, true);
    assert!(keys.is_pressed(15));
    assert!(!keys.is_pressed(14));
}

#[test]
fn zero_row_sprite_reads_nothing_even_past_memory() {
    // VF = 1, V0 = 0xFF, I = 0xFFF, I += V0 (0x10FE), then D010.
    let mut chip8 = machine_with(vec![0x6F, 0x01, 0x60, 0xFF, 0xAF, 0xFF, 0xF0, 0x1E, 0xD0, 0x10]);
    let keys = create_key_state();
    for _ in 0..4 {
        chip8.exec_cycle(&keys).unwrap();
    }
    assert_eq!(chip8.index_register(), 0x10FE);
    assert_eq!(chip8.exec_cycle(&keys), Ok(true));
    assert_eq!(chip8.registers()[15], 0);
    assert!(chip8.display_memory().iter().all(|row| row.iter().all(|p| *p == 0)));
    chip8.lemma_wf();
}

#[test]
fn one_row_sprite_past_memory_fails() {
    let mut chip8 = machine_with(vec![0x60, 0xFF, 0xAF, 0xFF, 0xF0, 0x1E, 0xD0, 0x11]);
    let keys = create_key_state();
    for _ in 0..3 {
        chip8.exec_cycle(&keys).unwrap();
    }
    assert_eq!(chip8.exec_cycle(&keys), Err(Chip8Error::MemoryOutOfBounds));
    assert!(!chip8.draw_flag());
}
