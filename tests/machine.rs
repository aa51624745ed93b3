use chip8_core::{EmulationSystem, Error, MachineState};

fn machine_with(system: EmulationSystem, program: &[u8]) -> MachineState {
    let mut m = MachineState::new(system);
    m.load_default_font();
    m.load_program(program);
    m
}

fn run(m: &mut MachineState, steps: usize) {
    for _ in 0..steps {
        m.tick(0, 0).unwrap();
    }
}

fn lit_count(m: &MachineState) -> usize {
    let mut count = 0;
    for x in 0..m.display_width() {
        for y in 0..m.display_height() {
            if m.pixel(x, y) {
                count += 1;
            }
        }
    }
    count
}

#[test]
fn new_machine_is_blank() {
    let m = MachineState::new(EmulationSystem::Chip8);
    assert_eq!(m.program_counter(), 0x200);
    assert_eq!(m.index_register(), 0);
    assert_eq!(m.display_width(), 64);
    assert_eq!(m.display_height(), 32);
    assert_eq!(lit_count(&m), 0);
    assert!(m.stack().is_empty());
    let big = MachineState::new(EmulationSystem::SuperChip);
    assert_eq!(big.display_width(), 128);
    assert_eq!(big.display_height(), 64);
    assert_eq!(EmulationSystem::default(), EmulationSystem::Chip8);
}

#[test]
fn fonts_are_loaded_at_fixed_addresses() {
    let m = machine_with(EmulationSystem::SuperChip, &[]);
    assert_eq!(m.memory(0x050), 0xF0);
    assert_eq!(m.memory(0x050 + 5), 0x20);
    assert_eq!(m.memory(0x0A0), 0xFF);
    assert_eq!(m.memory(0x0A0 + 10), 0x18);
    assert_eq!(m.memory(0x140), 0);
    let c = machine_with(EmulationSystem::Chip8, &[]);
    assert_eq!(c.memory(0x050 + 75), 0xF0);
    assert_eq!(c.memory(0x0A0), 0);
}

#[test]
fn program_counter_stays_even_and_in_range() {
    // 6005: V0 = 5; 7001: V0 += 1; 3006: skip if V0 == 6; 1200; 1FFE: jump to the last word.
    let mut m = machine_with(
        EmulationSystem::Chip8,
        &[0x60, 0x05, 0x70, 0x01, 0x30, 0x06, 0x12, 0x00, 0x1F, 0xFE],
    );
    for _ in 0..3 {
        m.tick(0, 0).unwrap();
        assert_eq!(m.program_counter() % 2, 0);
        assert!(m.program_counter() < 4096);
    }
    assert_eq!(m.program_counter(), 0x208);
    m.tick(0, 0).unwrap();
    assert_eq!(m.program_counter(), 0xFFE);
    // The word at 0xFFE is 0000, which is illegal; the counter wraps to 0.
    assert_eq!(m.tick(0, 0), Err(Error::IllegalInstruction(0x0000)));
    assert_eq!(m.program_counter(), 0);
}

#[test]
fn clear_screen_blanks_every_pixel() {
    // V0 = 0; F029: I = glyph 0; D005; 00E0.
    let mut m = machine_with(EmulationSystem::Chip8, &[0x60, 0x00, 0xF0, 0x29, 0xD0, 0x05, 0x00, 0xE0]);
    run(&mut m, 3);
    assert!(lit_count(&m) > 0);
    assert_eq!(m.tick(0, 0), Ok(true));
    assert_eq!(lit_count(&m), 0);
}

#[test]
fn return_on_empty_stack_goes_to_program_start() {
    let mut m = machine_with(EmulationSystem::Chip8, &[0x00, 0xEE]);
    assert_eq!(m.tick(0, 0), Ok(false));
    assert_eq!(m.program_counter(), 0x200);
}

#[test]
fn call_and_return() {
    // 2206: call 0x206; 0x202: 1202; 0x206: 00EE.
    let mut m = machine_with(EmulationSystem::Chip8, &[0x22, 0x06, 0x12, 0x02, 0x00, 0x00, 0x00, 0xEE]);
    m.tick(0, 0).unwrap();
    assert_eq!(m.program_counter(), 0x206);
    assert_eq!(m.stack(), vec![0x202]);
    m.tick(0, 0).unwrap();
    assert_eq!(m.program_counter(), 0x202);
    assert!(m.stack().is_empty());
}

#[test]
fn seventeenth_call_overflows() {
    let mut program = Vec::new();
    for i in 0..17u16 {
        let target = 0x202 + 2 * i;
        program.push(0x20 | (target >> 8) as u8);
        program.push((target & 0xFF) as u8);
    }
    let mut m = machine_with(EmulationSystem::Chip8, &program);
    for i in 0..16u16 {
        assert_eq!(m.tick(0, 0), Ok(false));
        assert_eq!(m.program_counter(), 0x202 + 2 * i);
    }
    let expected: Vec<u16> = (0..16u16).map(|i| 0x202 + 2 * i).collect();
    assert_eq!(m.stack(), expected);
    assert_eq!(m.tick(0, 0), Err(Error::StackOverflow));
    assert_eq!(m.stack(), expected);
}

#[test]
fn add_sets_carry() {
    // V1 = FF; V2 = 01; V1 += V2.
    let mut m = machine_with(EmulationSystem::Chip8, &[0x61, 0xFF, 0x62, 0x01, 0x81, 0x24]);
    run(&mut m, 3);
    assert_eq!(m.register(1), 0x00);
    assert_eq!(m.register(0xF), 1);
    let mut m = machine_with(EmulationSystem::Chip8, &[0x61, 0x01, 0x62, 0x01, 0x81, 0x24]);
    run(&mut m, 3);
    assert_eq!(m.register(1), 0x02);
    assert_eq!(m.register(0xF), 0);
}

#[test]
fn subtract_borrows_alike_on_both_variants() {
    for system in [EmulationSystem::Chip8, EmulationSystem::SuperChip] {
        let mut m = machine_with(system, &[0x61, 0x01, 0x62, 0x02, 0x81, 0x25]);
        run(&mut m, 3);
        assert_eq!(m.register(1), 0xFF);
        assert_eq!(m.register(0xF), 0);
        let mut m = machine_with(system, &[0x61, 0x05, 0x62, 0x02, 0x82, 0x17]);
        run(&mut m, 3);
        assert_eq!(m.register(2), 0x03);
        assert_eq!(m.register(0xF), 1);
    }
}

#[test]
fn or_clears_flag_only_on_classic() {
    // VF = 7; V1 = 0x10; V2 = 0x01; V1 |= V2.
    let program = [0x6F, 0x07, 0x61, 0x10, 0x62, 0x01, 0x81, 0x21];
    let mut m = machine_with(EmulationSystem::Chip8, &program);
    run(&mut m, 4);
    assert_eq!(m.register(1), 0x11);
    assert_eq!(m.register(0xF), 0);
    let mut m = machine_with(EmulationSystem::SuperChip, &program);
    run(&mut m, 4);
    assert_eq!(m.register(1), 0x11);
    assert_eq!(m.register(0xF), 7);
}

#[test]
fn and_xor_results() {
    let mut m = machine_with(EmulationSystem::SuperChip, &[0x61, 0x0C, 0x62, 0x0A, 0x83, 0x10, 0x81, 0x22, 0x83, 0x23]);
    run(&mut m, 5);
    assert_eq!(m.register(1), 0x08);
    assert_eq!(m.register(3), 0x0C ^ 0x0A);
}

#[test]
fn shift_source_depends_on_variant() {
    // V1 = 0x80; V2 = 0x03; 8126: shift right.
    let program = [0x61, 0x80, 0x62, 0x03, 0x81, 0x26];
    let mut m = machine_with(EmulationSystem::Chip8, &program);
    run(&mut m, 3);
    assert_eq!(m.register(1), 0x01);
    assert_eq!(m.register(0xF), 1);
    let mut m = machine_with(EmulationSystem::SuperChip, &program);
    run(&mut m, 3);
    assert_eq!(m.register(1), 0x40);
    assert_eq!(m.register(0xF), 0);
    // 812E: shift left.
    let program = [0x61, 0x81, 0x62, 0x03, 0x81, 0x2E];
    let mut m = machine_with(EmulationSystem::Chip8, &program);
    run(&mut m, 3);
    assert_eq!(m.register(1), 0x06);
    assert_eq!(m.register(0xF), 0);
    let mut m = machine_with(EmulationSystem::SuperChip, &program);
    run(&mut m, 3);
    assert_eq!(m.register(1), 0x02);
    assert_eq!(m.register(0xF), 1);
}

#[test]
fn jump_with_offset_depends_on_variant() {
    // V0 = 2; V3 = 4; B300.
    let program = [0x60, 0x02, 0x63, 0x04, 0xB3, 0x00];
    let mut m = machine_with(EmulationSystem::Chip8, &program);
    run(&mut m, 3);
    assert_eq!(m.program_counter(), 0x302);
    let mut m = machine_with(EmulationSystem::SuperChip, &program);
    run(&mut m, 3);
    assert_eq!(m.program_counter(), 0x304);
}

#[test]
fn skips_compare_registers_and_constants() {
    // V1 = 3; 3103 skips; (skipped) ; 4103 no skip; 5120 with V2 = 0: no skip; 9120 skips.
    let mut m = machine_with(
        EmulationSystem::Chip8,
        &[0x61, 0x03, 0x31, 0x03, 0x00, 0x00, 0x41, 0x03, 0x51, 0x20, 0x91, 0x20],
    );
    run(&mut m, 2);
    assert_eq!(m.program_counter(), 0x206);
    run(&mut m, 2);
    assert_eq!(m.program_counter(), 0x20A);
    run(&mut m, 1);
    assert_eq!(m.program_counter(), 0x20E);
}

#[test]
fn random_byte_is_masked() {
    let mut m = machine_with(EmulationSystem::Chip8, &[0xC4, 0x0F]);
    m.tick(0, 0xAB).unwrap();
    assert_eq!(m.register(4), 0x0B);
}

#[test]
fn draw_twice_restores_and_collides() {
    // V0 = 0; I = glyph 0; D005 twice.
    let mut m = machine_with(EmulationSystem::Chip8, &[0x60, 0x00, 0xF0, 0x29, 0xD0, 0x05, 0xD0, 0x05]);
    run(&mut m, 2);
    assert_eq!(m.tick(0, 0), Ok(true));
    assert_eq!(m.register(0xF), 0);
    assert_eq!(lit_count(&m), 14);
    assert!(m.pixel(0, 0) && m.pixel(3, 0) && !m.pixel(1, 1));
    assert_eq!(m.tick(0, 0), Ok(true));
    assert_eq!(m.register(0xF), 1);
    assert_eq!(lit_count(&m), 0);
}

#[test]
fn draw_clips_at_right_edge() {
    // V0 = 62 (x), V1 = 0; I = glyph 0 (F0 top row): only 2 columns fit.
    let mut m = machine_with(EmulationSystem::Chip8, &[0x60, 0x3E, 0x61, 0x00, 0x62, 0x00, 0xF2, 0x29, 0xD0, 0x11]);
    run(&mut m, 5);
    assert_eq!(lit_count(&m), 2);
    assert!(m.pixel(62, 0) && m.pixel(63, 0));
}

#[test]
fn low_res_draw_on_extended_uses_blocks() {
    let mut m = machine_with(EmulationSystem::SuperChip, &[0x60, 0x00, 0xF0, 0x29, 0xD0, 0x01]);
    run(&mut m, 3);
    // The top row of glyph 0 is F0: four logical pixels, each a 2 by 2 block.
    assert_eq!(lit_count(&m), 16);
    assert!(m.pixel(0, 0) && m.pixel(1, 1) && m.pixel(7, 1) && !m.pixel(8, 0));
}

#[test]
fn high_res_draw_counts_collisions_and_clipped_rows() {
    // 00FF: high res; V0 = 0; V1 = 62; I = 0x0A0 (big glyph 0, 10 rows); D01A twice.
    let mut m = machine_with(
        EmulationSystem::SuperChip,
        &[0x00, 0xFF, 0x60, 0x00, 0x61, 0x3E, 0xA0, 0xA0, 0xD0, 0x1A, 0xD0, 0x1A],
    );
    run(&mut m, 4);
    assert!(m.high_res());
    assert_eq!(m.tick(0, 0), Ok(true));
    // Two rows on screen, eight clipped.
    assert_eq!(m.register(0xF), 8);
    assert_eq!(lit_count(&m), 16);
    assert_eq!(m.tick(0, 0), Ok(true));
    assert_eq!(m.register(0xF), 10);
    assert_eq!(lit_count(&m), 0);
}

#[test]
fn high_res_sixteen_by_sixteen_sprite() {
    // 00FF; I = 0x300; D000 with 32 bytes of FF at 0x300.
    let mut program = vec![0x00, 0xFF, 0xA3, 0x00, 0xD0, 0x00];
    program.resize(0x100, 0);
    program.extend(std::iter::repeat(0xFF).take(32));
    let mut m = machine_with(EmulationSystem::SuperChip, &program);
    run(&mut m, 3);
    assert_eq!(lit_count(&m), 256);
    assert_eq!(m.register(0xF), 0);
}

#[test]
fn key_skips_follow_held_mask() {
    // V1 = 5; E19E skips when key 5 is held; E1A1 skips when it is not.
    let mut m = machine_with(EmulationSystem::Chip8, &[0x61, 0x05, 0xE1, 0x9E, 0x00, 0x00, 0xE1, 0xA1]);
    m.tick(0, 0).unwrap();
    m.tick(1 << 5, 0).unwrap();
    assert_eq!(m.program_counter(), 0x206);
    m.tick(1 << 5, 0).unwrap();
    assert_eq!(m.program_counter(), 0x208);
}

#[test]
fn key_wait_blocks_until_release() {
    let mut m = machine_with(EmulationSystem::Chip8, &[0xF3, 0x0A]);
    m.tick(0, 0).unwrap();
    assert_eq!(m.program_counter(), 0x200);
    m.tick(0b1000, 0).unwrap();
    assert_eq!(m.program_counter(), 0x200);
    m.tick(0, 0).unwrap();
    assert_eq!(m.program_counter(), 0x202);
    assert_eq!(m.register(3), 3);
}

#[test]
fn timers_count_down_to_zero() {
    // V0 = 2; delay = V0; sound = V0; V1 = delay.
    let mut m = machine_with(EmulationSystem::Chip8, &[0x60, 0x02, 0xF0, 0x15, 0xF0, 0x18, 0xF1, 0x07]);
    run(&mut m, 3);
    assert_eq!(m.delay_timer(), 2);
    assert_eq!(m.sound_timer, 2);
    m.tick_timer();
    assert_eq!(m.delay_timer(), 1);
    run(&mut m, 1);
    assert_eq!(m.register(1), 1);
    m.tick_timer();
    m.tick_timer();
    assert_eq!(m.delay_timer(), 0);
    assert_eq!(m.sound_timer, 0);
}

#[test]
fn index_instructions() {
    // A123; V0 = 0x10; F01E; V1 = 0x1B; F129.
    let mut m = machine_with(EmulationSystem::SuperChip, &[0xA1, 0x23, 0x60, 0x10, 0xF0, 0x1E, 0x61, 0x1B, 0xF1, 0x29, 0xF1, 0x30]);
    run(&mut m, 3);
    assert_eq!(m.index_register(), 0x133);
    run(&mut m, 2);
    assert_eq!(m.index_register(), 0x050 + 0xB * 5);
    run(&mut m, 1);
    assert_eq!(m.index_register(), 0x0A0 + 0xB * 10);
}

#[test]
fn bcd_of_234() {
    let mut m = machine_with(EmulationSystem::Chip8, &[0x65, 0xEA, 0xA3, 0x00, 0xF5, 0x33]);
    run(&mut m, 3);
    assert_eq!(m.memory(0x300), 2);
    assert_eq!(m.memory(0x301), 3);
    assert_eq!(m.memory(0x302), 4);
}

#[test]
fn store_then_load_round_trips() {
    // V0..V3 = 1, 2, 3, 4; I = 0x300; F355; clear V0..V3; I = 0x300; F365.
    let program = [
        0x60, 0x01, 0x61, 0x02, 0x62, 0x03, 0x63, 0x04, 0xA3, 0x00, 0xF3, 0x55, 0x60, 0x00, 0x61, 0x00,
        0x62, 0x00, 0x63, 0x00, 0xA3, 0x00, 0xF3, 0x65,
    ];
    for system in [EmulationSystem::Chip8, EmulationSystem::SuperChip] {
        let mut m = machine_with(system, &program);
        run(&mut m, 6);
        assert_eq!(m.memory(0x303), 4);
        let expected_index = if system == EmulationSystem::Chip8 { 0x304 } else { 0x300 };
        assert_eq!(m.index_register(), expected_index);
        run(&mut m, 6);
        for i in 0..4 {
            assert_eq!(m.register(i), i as u8 + 1);
        }
    }
}

#[test]
fn clear_then_self_jump() {
    let mut m = machine_with(EmulationSystem::Chip8, &[0x00, 0xE0, 0x12, 0x00]);
    assert_eq!(m.tick(0, 0), Ok(true));
    assert_eq!(lit_count(&m), 0);
    assert_eq!(m.program_counter(), 0x202);
    assert_eq!(m.tick(0, 0), Ok(false));
    assert_eq!(m.program_counter(), 0x200);
}

#[test]
fn illegal_instructions_are_reported() {
    let mut m = machine_with(EmulationSystem::Chip8, &[0x00, 0xFD]);
    assert_eq!(m.tick(0, 0), Err(Error::IllegalInstruction(0x00FD)));
    let mut m = machine_with(EmulationSystem::SuperChip, &[0x81, 0x28]);
    assert_eq!(m.tick(0, 0), Err(Error::IllegalInstruction(0x8128)));
    let mut m = machine_with(EmulationSystem::Chip8, &[0xF1, 0x30]);
    assert_eq!(m.tick(0, 0), Err(Error::IllegalInstruction(0xF130)));
}

#[test]
fn exit_opcode_stops_extended_program() {
    let mut m = machine_with(EmulationSystem::SuperChip, &[0x00, 0xFD]);
    assert_eq!(m.tick(0, 0), Err(Error::ProgramExited));
}

#[test]
fn resolution_switches() {
    let mut m = machine_with(EmulationSystem::SuperChip, &[0x00, 0xFF, 0x00, 0xFE]);
    assert_eq!(m.tick(0, 0), Ok(false));
    assert!(m.high_res());
    assert_eq!(m.tick(0, 0), Ok(false));
    assert!(!m.high_res());
}

#[test]
fn scrolls_move_the_picture() {
    // 00FF; V0 = 0; I = glyph 0; D001 (columns 0..4 of row 0); 00FB; 00FC; 00FC; 00C2.
    let mut m = machine_with(
        EmulationSystem::SuperChip,
        &[0x00, 0xFF, 0x60, 0x00, 0xF0, 0x29, 0xD0, 0x01, 0x00, 0xFB, 0x00, 0xFC, 0x00, 0xFC, 0x00, 0xC2],
    );
    run(&mut m, 4);
    assert!(m.pixel(0, 0) && m.pixel(3, 0) && !m.pixel(4, 0));
    assert_eq!(m.tick(0, 0), Ok(true));
    assert!(!m.pixel(0, 0) && m.pixel(4, 0) && m.pixel(7, 0) && !m.pixel(8, 0));
    run(&mut m, 1);
    assert!(m.pixel(0, 0) && m.pixel(3, 0) && !m.pixel(4, 0));
    run(&mut m, 1);
    assert_eq!(lit_count(&m), 0);
    // Scroll down on a fresh picture.
    let mut m = machine_with(
        EmulationSystem::SuperChip,
        &[0x00, 0xFF, 0x60, 0x00, 0xF0, 0x29, 0xD0, 0x01, 0x00, 0xC2],
    );
    run(&mut m, 5);
    assert!(!m.pixel(0, 0) && m.pixel(0, 2) && m.pixel(3, 2));
    assert_eq!(lit_count(&m), 4);
}

#[test]
fn user_flags_round_trip() {
    // V0 = 9; V1 = 8; F175; V0 = 0; V1 = 0; F185.
    let mut m = machine_with(
        EmulationSystem::SuperChip,
        &[0x60, 0x09, 0x61, 0x08, 0xF1, 0x75, 0x60, 0x00, 0x61, 0x00, 0xF1, 0x85],
    );
    run(&mut m, 6);
    assert_eq!(m.register(0), 9);
    assert_eq!(m.register(1), 8);
}

#[test]
fn default_machine_is_classic() {
    let m = MachineState::default();
    assert_eq!(m.system(), EmulationSystem::Chip8);
    assert_eq!(m.program_counter(), 0x200);
    assert_eq!(m.display_width(), 64);
    assert_eq!(m.sound_timer, 0);
}
