use chip8::device::{loc_to_idx, is_pixel_on, Chip8, DISPLAY_H, DISPLAY_W, PIXEL_ON, PIXEL_PRE_OFF};
use chip8::util::{Chip8Key, ExecError};

fn fresh() -> Chip8 {
    Chip8::new(Vec::new()).unwrap()
}

#[test]
fn location_to_index_is_row_major() {
    assert_eq!(loc_to_idx(0, 0), 0);
    assert_eq!(loc_to_idx(63, 0), 63);
    assert_eq!(loc_to_idx(0, 1), 64);
    assert_eq!(loc_to_idx(63, 31), 2047);
}

#[test]
fn pixel_on_predicate() {
    assert!(is_pixel_on(0xff));
    assert!(!is_pixel_on(0xfe));
    assert!(!is_pixel_on(0x00));
}

#[test]
fn draw_single_bit_turns_one_pixel_on_then_off() {
    let mut c = fresh();
    // one sprite row with only the most significant bit set
    c.ram[0x300] = 0x80;
    c.ireg = 0x300;
    c.vreg[0] = 5;
    c.vreg[1] = 7;
    assert!(c.execute(0xd011, 0).is_ok());
    assert_eq!(c.get_pixel_value(5, 7), PIXEL_ON);
    assert_eq!(c.vreg[0xf], 0x00);
    // exactly one pixel is on
    let lit = c.display.iter().filter(|&&p| p != 0).count();
    assert_eq!(lit, 1);
    // the identical draw flips the pixel back off, to the pre-fade value
    assert!(c.execute(0xd011, 0).is_ok());
    assert_eq!(c.get_pixel_value(5, 7), PIXEL_PRE_OFF);
    assert_eq!(c.vreg[0xf], 0x01);
}

#[test]
fn draw_position_wraps_modulo_screen() {
    let mut c = fresh();
    c.ram[0x300] = 0x80;
    c.ireg = 0x300;
    c.vreg[0] = 64 + 3;
    c.vreg[1] = 32 + 2;
    assert!(c.execute(0xd011, 0).is_ok());
    assert_eq!(c.get_pixel_value(3, 2), PIXEL_ON);
}

#[test]
fn draw_does_not_wrap_at_screen_edges() {
    let mut c = fresh();
    // a full row of bits drawn at the last column: only one pixel fits
    c.ram[0x300] = 0xff;
    c.ram[0x301] = 0xff;
    c.ireg = 0x300;
    c.vreg[0] = (DISPLAY_W - 1) as u8;
    c.vreg[1] = (DISPLAY_H - 1) as u8;
    // two rows: the second falls past the bottom edge and is dropped
    assert!(c.execute(0xd012, 0).is_ok());
    let lit = c.display.iter().filter(|&&p| p != 0).count();
    assert_eq!(lit, 1);
    assert_eq!(c.get_pixel_value(63, 31), PIXEL_ON);
    // nothing wrapped onto the next row or back to the first
    assert_eq!(c.get_pixel_value(0, 0), 0);
}

#[test]
fn draw_sprite_outside_ram_is_fatal() {
    let mut c = fresh();
    c.ireg = 4095;
    assert!(c.execute(0xd011, 0).is_ok());
    assert_eq!(c.execute(0xd012, 0), Err(ExecError::MemoryError));
    // a zero-height draw never reads and cannot fail
    c.ireg = 0xffff;
    assert!(c.execute(0xd010, 0).is_ok());
}

#[test]
fn clear_parks_on_pixels_at_pre_fade() {
    let mut c = fresh();
    c.ram[0x300] = 0x80;
    c.ireg = 0x300;
    assert!(c.execute(0xd001, 0).is_ok());
    assert_eq!(c.get_pixel_value(0, 0), PIXEL_ON);
    // a pixel mid-fade keeps its value across a clear
    c.display[5] = 0x40;
    assert!(c.execute(0x00e0, 0).is_ok());
    // never straight to fully off
    assert_eq!(c.get_pixel_value(0, 0), PIXEL_PRE_OFF);
    assert_ne!(c.get_pixel_value(0, 0), 0x00);
    assert_eq!(c.display[5], 0x40);
}

#[test]
fn fade_decays_only_intermediate_pixels() {
    let mut c = fresh();
    c.display[0] = PIXEL_ON;
    c.display[1] = PIXEL_PRE_OFF;
    c.display[2] = 0x10;
    c.display[3] = 0x00;
    c.fade_display(0x30);
    assert_eq!(c.display[0], PIXEL_ON);
    assert_eq!(c.display[1], PIXEL_PRE_OFF - 0x30);
    // saturates at fully off
    assert_eq!(c.display[2], 0x00);
    assert_eq!(c.display[3], 0x00);
}

#[test]
fn pixel_value_outside_screen_reads_off() {
    let c = fresh();
    assert_eq!(c.get_pixel_value(64, 0), 0);
    assert_eq!(c.get_pixel_value(0, 32), 0);
}

#[test]
fn key_state_is_written_and_read_per_key() {
    let mut c = fresh();
    assert!(!c.is_key_pressed(Chip8Key::K7));
    c.set_key_down(Chip8Key::K7, true);
    assert!(c.is_key_pressed(Chip8Key::K7));
    assert!(!c.is_key_pressed(Chip8Key::K8));
    c.set_key_down(Chip8Key::K7, false);
    assert!(!c.is_key_pressed(Chip8Key::K7));

    assert!(!c.was_key_released(Chip8Key::A));
    c.set_key_released(Chip8Key::A, true);
    assert!(c.was_key_released(Chip8Key::A));
}

#[test]
fn skip_if_key_down_and_up() {
    let mut c = fresh();
    c.vreg[0] = 0x07;
    let pc = c.pc;
    // key 7 is up: EX9E does not skip, EXA1 does
    assert!(c.execute(0xe09e, 0).is_ok());
    assert_eq!(c.pc, pc);
    assert!(c.execute(0xe0a1, 0).is_ok());
    assert_eq!(c.pc, pc + 2);
    // key 7 is down: EX9E skips, EXA1 does not
    c.set_key_down(Chip8Key::K7, true);
    assert!(c.execute(0xe09e, 0).is_ok());
    assert_eq!(c.pc, pc + 4);
    assert!(c.execute(0xe0a1, 0).is_ok());
    assert_eq!(c.pc, pc + 4);
}

#[test]
fn key_code_outside_keypad_is_fatal() {
    let mut c = fresh();
    c.vreg[0] = 0x10;
    assert_eq!(c.execute(0xe09e, 0), Err(ExecError::KeymapError));
    assert_eq!(c.execute(0xe0a1, 0), Err(ExecError::KeymapError));
}

#[test]
fn key_wait_rewinds_pc_until_a_release() {
    // ROM: F10A at the origin — wait for a key release into V1
    let mut c = Chip8::new(vec![0xf1, 0x0a]).unwrap();
    for _ in 0..5 {
        assert!(c.cycle().is_ok());
        // in effect PC never moves while no release flag is set
        assert_eq!(c.pc, 0x200);
    }
    // release key 9: the wait consumes exactly that flag and PC advances
    c.set_key_released(Chip8Key::K9, true);
    assert!(c.cycle().is_ok());
    assert_eq!(c.pc, 0x202);
    assert_eq!(c.vreg[1], 9);
    assert!(!c.was_key_released(Chip8Key::K9));
}

#[test]
fn key_wait_consumes_lowest_numbered_release_first() {
    let mut c = fresh();
    c.set_key_released(Chip8Key::K3, true);
    c.set_key_released(Chip8Key::B, true);
    assert!(c.execute(0xf20a, 0).is_ok());
    assert_eq!(c.vreg[2], 3);
    assert!(!c.was_key_released(Chip8Key::K3));
    // the other flag is untouched
    assert!(c.was_key_released(Chip8Key::B));
}
