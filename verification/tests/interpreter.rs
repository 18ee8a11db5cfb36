use chip8::device::{Chip8, ROM_LOAD_ADDR};
use chip8::util::ExecError;

fn fresh() -> Chip8 {
    Chip8::new(Vec::new()).unwrap()
}

#[test]
fn new_machine_starts_at_program_origin() {
    let c = Chip8::new(vec![0x12, 0x00]).unwrap();
    assert_eq!(c.pc, ROM_LOAD_ADDR as u16);
    assert_eq!(c.sp, -1);
    assert_eq!(c.ireg, 0);
    assert_eq!(c.ram[0x200], 0x12);
    assert_eq!(c.ram[0x201], 0x00);
    // font is in place at its fixed address
    assert_eq!(c.ram[0x50], 0xf0);
    assert_eq!(c.ram[0x9f], 0x80);
    // the rest of RAM is zeroed
    assert_eq!(c.ram[0x000], 0x00);
    assert_eq!(c.ram[0xfff], 0x00);
    assert!(c.vreg.iter().all(|&v| v == 0));
    assert!(c.display.iter().all(|&p| p == 0));
}

#[test]
fn rom_larger_than_ram_is_rejected() {
    let rom = vec![0u8; 4096 - 0x200 + 1];
    match Chip8::new(rom) {
        Err(ExecError::MemoryError) => {},
        _ => panic!("oversized ROM must be rejected"),
    }
    // the largest ROM that fits is accepted
    let rom = vec![0u8; 4096 - 0x200];
    assert!(Chip8::new(rom).is_ok());
}

#[test]
fn set_register_then_read_back_roundtrips() {
    let mut c = fresh();
    // 6ANN: set VA, FA15: delay timer = VA, FA07: VA = delay timer
    assert!(c.execute(0x6a5c, 0).is_ok());
    assert_eq!(c.vreg[0xa], 0x5c);
    assert!(c.execute(0xfa15, 0).is_ok());
    assert_eq!(c.delay_timer, 0x5c);
    assert!(c.execute(0x6a00, 0).is_ok());
    assert!(c.execute(0xfa07, 0).is_ok());
    assert_eq!(c.vreg[0xa], 0x5c);
}

#[test]
fn add_with_carry_wraps_and_sets_vf() {
    let mut c = fresh();
    c.vreg[0] = 0xff;
    c.vreg[1] = 0x01;
    assert!(c.execute(0x8014, 0).is_ok());
    assert_eq!(c.vreg[0], 0x00);
    assert_eq!(c.vf(), 0x01);
    // no carry
    c.vreg[2] = 0x10;
    c.vreg[3] = 0x20;
    assert!(c.execute(0x8234, 0).is_ok());
    assert_eq!(c.vreg[2], 0x30);
    assert_eq!(c.vreg[0xf], 0x00);
}

#[test]
fn subtract_with_borrow_wraps_and_clears_vf() {
    let mut c = fresh();
    c.vreg[0] = 0x01;
    c.vreg[1] = 0x02;
    assert!(c.execute(0x8015, 0).is_ok());
    assert_eq!(c.vreg[0], 0xff);
    assert_eq!(c.vreg[0xf], 0x00);
    // no borrow
    c.vreg[2] = 0x05;
    c.vreg[3] = 0x03;
    assert!(c.execute(0x8235, 0).is_ok());
    assert_eq!(c.vreg[2], 0x02);
    assert_eq!(c.vreg[0xf], 0x01);
}

#[test]
fn reverse_subtract_uses_vy_minus_vx() {
    let mut c = fresh();
    c.vreg[4] = 0x03;
    c.vreg[5] = 0x0a;
    assert!(c.execute(0x8457, 0).is_ok());
    assert_eq!(c.vreg[4], 0x07);
    assert_eq!(c.vreg[0xf], 0x01);
    c.vreg[6] = 0x0a;
    c.vreg[7] = 0x03;
    assert!(c.execute(0x8677, 0).is_ok());
    assert_eq!(c.vreg[6], 0xf9);
    assert_eq!(c.vreg[0xf], 0x00);
}

#[test]
fn bitwise_ops_and_assignment() {
    let mut c = fresh();
    c.vreg[0] = 0b1100;
    c.vreg[1] = 0b1010;
    assert!(c.execute(0x8011, 0).is_ok());
    assert_eq!(c.vreg[0], 0b1110);
    c.vreg[0] = 0b1100;
    assert!(c.execute(0x8012, 0).is_ok());
    assert_eq!(c.vreg[0], 0b1000);
    c.vreg[0] = 0b1100;
    assert!(c.execute(0x8013, 0).is_ok());
    assert_eq!(c.vreg[0], 0b0110);
    assert!(c.execute(0x8010, 0).is_ok());
    assert_eq!(c.vreg[0], 0b1010);
}

#[test]
fn shifts_use_vx_by_default() {
    let mut c = fresh();
    c.vreg[0] = 0b0000_0101;
    c.vreg[1] = 0xff;
    assert!(c.execute(0x8016, 0).is_ok());
    assert_eq!(c.vreg[0], 0b0000_0010);
    assert_eq!(c.vreg[0xf], 0x01);
    c.vreg[2] = 0b1100_0000;
    assert!(c.execute(0x823e, 0).is_ok());
    assert_eq!(c.vreg[2], 0b1000_0000);
    assert_eq!(c.vreg[0xf], 0x01);
}

#[test]
fn shifts_use_vy_under_legacy_toggle() {
    let mut c = fresh();
    c.use_vy_when_shifting = true;
    c.vreg[0] = 0xff;
    c.vreg[1] = 0b0000_0100;
    assert!(c.execute(0x8016, 0).is_ok());
    assert_eq!(c.vreg[0], 0b0000_0010);
    assert_eq!(c.vreg[0xf], 0x00);
}

#[test]
fn add_immediate_wraps_without_flag() {
    let mut c = fresh();
    c.vreg[3] = 0xf0;
    c.vreg[0xf] = 0x77;
    assert!(c.execute(0x7320, 0).is_ok());
    assert_eq!(c.vreg[3], 0x10);
    // VF untouched
    assert_eq!(c.vreg[0xf], 0x77);
}

#[test]
fn conditional_skips_on_immediate() {
    let mut c = fresh();
    c.vreg[0] = 0x42;
    let pc = c.pc;
    assert!(c.execute(0x3042, 0).is_ok());
    assert_eq!(c.pc, pc + 2);
    assert!(c.execute(0x3041, 0).is_ok());
    assert_eq!(c.pc, pc + 2);
    assert!(c.execute(0x4041, 0).is_ok());
    assert_eq!(c.pc, pc + 4);
    assert!(c.execute(0x4042, 0).is_ok());
    assert_eq!(c.pc, pc + 4);
}

#[test]
fn conditional_skips_on_register_pair() {
    let mut c = fresh();
    c.vreg[0] = 7;
    c.vreg[1] = 7;
    c.vreg[2] = 9;
    let pc = c.pc;
    assert!(c.execute(0x5010, 0).is_ok());
    assert_eq!(c.pc, pc + 2);
    assert!(c.execute(0x5020, 0).is_ok());
    assert_eq!(c.pc, pc + 2);
    assert!(c.execute(0x9020, 0).is_ok());
    assert_eq!(c.pc, pc + 4);
    assert!(c.execute(0x9010, 0).is_ok());
    assert_eq!(c.pc, pc + 4);
    // a non-zero low nibble makes these unknown: no skip
    assert!(c.execute(0x5011, 0).is_ok());
    assert_eq!(c.pc, pc + 4);
}

#[test]
fn jump_and_set_index() {
    let mut c = fresh();
    assert!(c.execute(0x1abc, 0).is_ok());
    assert_eq!(c.pc, 0xabc);
    assert!(c.execute(0xa123, 0).is_ok());
    assert_eq!(c.ireg, 0x123);
}

#[test]
fn jump_with_offset_uses_v0_by_default() {
    let mut c = fresh();
    c.vreg[0] = 0x10;
    c.vreg[2] = 0x40;
    assert!(c.execute(0xb200, 0).is_ok());
    assert_eq!(c.pc, 0x210);
}

#[test]
fn jump_with_offset_uses_vx_under_legacy_toggle() {
    let mut c = fresh();
    c.jump_with_offset = true;
    c.vreg[0] = 0x10;
    c.vreg[2] = 0x40;
    assert!(c.execute(0xb200, 0).is_ok());
    assert_eq!(c.pc, 0x240);
}

#[test]
fn random_byte_is_masked() {
    let mut c = fresh();
    for _ in 0..32 {
        assert!(c.decode_and_execute(0xc00f).is_ok());
        assert_eq!(c.vreg[0] & 0xf0, 0);
    }
    assert!(c.decode_and_execute(0xc100).is_ok());
    assert_eq!(c.vreg[1], 0);
}

#[test]
fn stack_sixteen_pushes_then_overflow() {
    let mut c = fresh();
    for i in 0..16u16 {
        assert!(c.stack_push(0x200 + i).is_ok());
    }
    assert_eq!(c.sp, 15);
    assert_eq!(c.stack_push(0x999), Err(ExecError::StackOverflow));
    assert_eq!(c.sp, 15);
}

#[test]
fn stack_pop_on_empty_is_fatal() {
    let mut c = fresh();
    assert_eq!(c.stack_pop(), Err(ExecError::StackUnderflow));
    assert_eq!(c.sp, -1);
}

#[test]
fn stack_push_then_pop_restores_empty() {
    let mut c = fresh();
    assert!(c.stack_push(0x234).is_ok());
    assert_eq!(c.sp, 0);
    assert_eq!(c.stack_pop(), Ok(0x234));
    assert_eq!(c.sp, -1);
}

#[test]
fn call_and_return_restore_pc() {
    let mut c = fresh();
    let pc = c.pc;
    assert!(c.execute(0x2400, 0).is_ok());
    assert_eq!(c.pc, 0x400);
    assert_eq!(c.sp, 0);
    assert!(c.execute(0x00ee, 0).is_ok());
    assert_eq!(c.pc, pc);
    assert_eq!(c.sp, -1);
}

#[test]
fn call_overflow_and_return_underflow_via_opcodes() {
    let mut c = fresh();
    for _ in 0..16 {
        assert!(c.execute(0x2300, 0).is_ok());
    }
    assert_eq!(c.execute(0x2300, 0), Err(ExecError::StackOverflow));
    let mut c = fresh();
    assert_eq!(c.execute(0x00ee, 0), Err(ExecError::StackUnderflow));
}

#[test]
fn index_add_sets_flag_past_addressing_range() {
    let mut c = fresh();
    c.ireg = 0x0fff;
    c.vreg[0] = 0x01;
    assert!(c.execute(0xf01e, 0).is_ok());
    assert_eq!(c.ireg, 0x1000);
    assert_eq!(c.vreg[0xf], 0x01);
    // below the range the flag is left alone
    let mut c = fresh();
    c.ireg = 0x0100;
    c.vreg[0] = 0x01;
    assert!(c.execute(0xf01e, 0).is_ok());
    assert_eq!(c.ireg, 0x0101);
    assert_eq!(c.vreg[0xf], 0x00);
}

#[test]
fn font_lookup_points_into_font_table() {
    let mut c = fresh();
    c.vreg[0] = 0x03;
    assert!(c.execute(0xf029, 0).is_ok());
    assert_eq!(c.ireg, (0x50 + 3 * 5) as u16);
    // only the low nibble of VX selects the glyph
    c.vreg[0] = 0xf3;
    assert!(c.execute(0xf029, 0).is_ok());
    assert_eq!(c.ireg, (0x50 + 3 * 5) as u16);
}

#[test]
fn bcd_decomposes_into_three_digits() {
    let mut c = fresh();
    c.vreg[7] = 254;
    c.ireg = 0x300;
    assert!(c.execute(0xf733, 0).is_ok());
    assert_eq!(c.ram[0x300], 2);
    assert_eq!(c.ram[0x301], 5);
    assert_eq!(c.ram[0x302], 4);
}

#[test]
fn bcd_outside_ram_is_fatal() {
    let mut c = fresh();
    c.ireg = 4094;
    assert_eq!(c.execute(0xf033, 0), Err(ExecError::RamError));
    // at the very edge it still fits
    c.ireg = 4093;
    c.vreg[0] = 7;
    assert!(c.execute(0xf033, 0).is_ok());
    assert_eq!(c.ram[4093], 0);
    assert_eq!(c.ram[4094], 0);
    assert_eq!(c.ram[4095], 7);
}

#[test]
fn store_and_load_register_block() {
    let mut c = fresh();
    for i in 0..=5u8 {
        c.vreg[i as usize] = 0x10 + i;
    }
    c.ireg = 0x300;
    assert!(c.execute(0xf555, 0).is_ok());
    for i in 0..=5usize {
        assert_eq!(c.ram[0x300 + i], 0x10 + i as u8);
    }
    // registers past X are not stored
    assert_eq!(c.ram[0x306], 0);
    // I is unchanged under the modern default
    assert_eq!(c.ireg, 0x300);

    let mut d = fresh();
    d.ram[0x300..0x306].copy_from_slice(&[9, 8, 7, 6, 5, 4]);
    d.ireg = 0x300;
    d.vreg[6] = 0xaa;
    assert!(d.execute(0xf565, 0).is_ok());
    assert_eq!(&d.vreg[0..6], &[9, 8, 7, 6, 5, 4]);
    // registers past X keep their value
    assert_eq!(d.vreg[6], 0xaa);
    assert_eq!(d.ireg, 0x300);
}

#[test]
fn register_block_transfer_advances_index_under_legacy_toggle() {
    let mut c = fresh();
    c.increment_ireg_on_reg_to_mem = true;
    c.ireg = 0x300;
    assert!(c.execute(0xf255, 0).is_ok());
    assert_eq!(c.ireg, 0x303);
    assert!(c.execute(0xf065, 0).is_ok());
    assert_eq!(c.ireg, 0x304);
}

#[test]
fn register_block_outside_ram_is_fatal() {
    let mut c = fresh();
    c.ireg = 4093;
    assert_eq!(c.execute(0xf355, 0), Err(ExecError::RamError));
    assert_eq!(c.execute(0xf365, 0), Err(ExecError::RamError));
    // untouched on the error path
    assert_eq!(c.ireg, 4093);
    assert_eq!(c.ram[4093], 0);
}

#[test]
fn unknown_opcodes_change_nothing() {
    let mut c = fresh();
    let pc = c.pc;
    assert!(c.execute(0x0123, 0).is_ok());
    assert!(c.execute(0x8008, 0).is_ok());
    assert!(c.execute(0xe0ff, 0).is_ok());
    assert!(c.execute(0xf0ff, 0).is_ok());
    assert_eq!(c.pc, pc);
    assert_eq!(c.sp, -1);
    assert!(c.vreg.iter().all(|&v| v == 0));
}

#[test]
fn fetch_reads_big_endian_and_advances() {
    let mut c = Chip8::new(vec![0x12, 0x34]).unwrap();
    let pc = c.pc;
    assert_eq!(c.fetch(), Ok(0x1234));
    assert_eq!(c.pc, pc + 2);
}

#[test]
fn fetch_outside_ram_is_fatal() {
    let mut c = fresh();
    c.pc = 4095;
    assert_eq!(c.fetch(), Err(ExecError::MemoryError));
    assert_eq!(c.pc, 4095);
    c.pc = 0xffff;
    assert_eq!(c.fetch(), Err(ExecError::MemoryError));
}

#[test]
fn timers_decrement_toward_zero_and_stop() {
    let mut c = fresh();
    c.delay_timer = 2;
    c.sound_timer = 0;
    c.decrement_timers();
    assert_eq!(c.delay_timer, 1);
    assert_eq!(c.sound_timer, 0);
    c.decrement_timers();
    assert_eq!(c.delay_timer, 0);
    assert_eq!(c.sound_timer, 0);
    // repeated decrements on zero counters leave them at zero
    for _ in 0..10 {
        c.decrement_timers();
        assert_eq!(c.delay_timer, 0);
        assert_eq!(c.sound_timer, 0);
    }
}

#[test]
fn sound_timer_set_from_register() {
    let mut c = fresh();
    c.vreg[2] = 9;
    assert!(c.execute(0xf218, 0).is_ok());
    assert_eq!(c.sound_timer, 9);
}

#[test]
fn load_copies_bytes_only_when_block_fits() {
    let mut c = fresh();
    assert!(c.load(&vec![1, 2, 3], 0x400).is_ok());
    assert_eq!(&c.ram[0x400..0x403], &[1, 2, 3]);
    // a block reaching past the end of RAM is rejected whole
    assert_eq!(c.load(&vec![9, 9], 4095), Err(ExecError::MemoryError));
    assert_eq!(c.ram[4095], 0);
    // a block ending exactly at the end of RAM fits
    assert!(c.load(&vec![7, 8], 4094).is_ok());
    assert_eq!(&c.ram[4094..4096], &[7, 8]);
}

#[test]
fn skip_wraps_pc_at_address_space_end() {
    let mut c = fresh();
    c.pc = 0xfffe;
    c.vreg[0] = 0x42;
    assert!(c.execute(0x3042, 0).is_ok());
    assert_eq!(c.pc, 0x0000);
}

#[test]
fn clear_jump_rom_runs_forever_oscillating() {
    // 00E0: clear screen; 1200: jump back to the program origin
    let mut c = Chip8::new(vec![0x00, 0xe0, 0x12, 0x00]).unwrap();
    for i in 0..100 {
        assert!(c.cycle().is_ok());
        if i % 2 == 0 {
            assert_eq!(c.pc, 0x202);
        } else {
            assert_eq!(c.pc, 0x200);
        }
    }
    assert_eq!(c.pc, 0x200);
}
