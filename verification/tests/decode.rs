use chip8::util::{
    get_default_font, take_n, take_nn, take_nnn, take_op, take_x, take_y, Chip8Key,
};

#[test]
fn decode_fields_of_draw_instruction() {
    let inst: u16 = 0xd123;
    assert_eq!(take_op(inst), 0xd);
    assert_eq!(take_x(inst), 0x1);
    assert_eq!(take_y(inst), 0x2);
    assert_eq!(take_n(inst), 0x3);
    assert_eq!(take_nn(inst), 0x23);
    assert_eq!(take_nnn(inst), 0x123);
}

#[test]
fn decode_fields_of_extreme_words() {
    assert_eq!(take_op(0x0000), 0x0);
    assert_eq!(take_x(0x0000), 0x0);
    assert_eq!(take_nnn(0x0000), 0x000);
    assert_eq!(take_op(0xffff), 0xf);
    assert_eq!(take_x(0xffff), 0xf);
    assert_eq!(take_y(0xffff), 0xf);
    assert_eq!(take_n(0xffff), 0xf);
    assert_eq!(take_nn(0xffff), 0xff);
    assert_eq!(take_nnn(0xffff), 0xfff);
}

#[test]
fn decoding_is_pure() {
    let inst: u16 = 0x8ab4;
    assert_eq!(take_x(inst), take_x(inst));
    assert_eq!(take_x(inst), 0xa);
    assert_eq!(take_y(inst), 0xb);
    assert_eq!(take_n(inst), 0x4);
}

#[test]
fn font_has_sixteen_five_byte_glyphs() {
    let font = get_default_font();
    assert_eq!(font.len(), 80);
    // glyph for 0
    assert_eq!(&font[0..5], &[0xf0, 0x90, 0x90, 0x90, 0xf0]);
    // glyph for 1
    assert_eq!(&font[5..10], &[0x20, 0x60, 0x20, 0x20, 0x70]);
    // glyph for F
    assert_eq!(&font[75..80], &[0xf0, 0x80, 0xf0, 0x80, 0x80]);
}

#[test]
fn key_codes_roundtrip() {
    for code in 0u8..16 {
        let k = Chip8Key::from_code(code);
        assert_eq!(k.code(), code);
    }
    assert_eq!(Chip8Key::A.code(), 10);
    assert_eq!(Chip8Key::F.code(), 15);
    assert_eq!(Chip8Key::K0.code(), 0);
}
