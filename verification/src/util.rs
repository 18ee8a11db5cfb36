//! Instruction-word field extraction, the built-in font, logical keys, and
//! the error taxonomy of the interpreter.

use vstd::prelude::*;

verus! {

/// Mask selecting the opcode-family nibble (top 4 bits) of an instruction.
pub const OP_MASK: u16 = 0xf000;
/// Mask selecting the X register nibble (bits 8..12) of an instruction.
pub const X_MASK: u16 = 0x0f00;
/// Mask selecting the Y register nibble (bits 4..8) of an instruction.
pub const Y_MASK: u16 = 0x00f0;
/// Mask selecting the low nibble (N immediate) of an instruction.
pub const N_MASK: u16 = 0x000f;
/// Mask selecting the low byte (NN immediate) of an instruction.
pub const NN_MASK: u16 = 0x00ff;
/// Mask selecting the low 12 bits (NNN address) of an instruction.
pub const NNN_MASK: u16 = 0x0fff;

/// Bytes per glyph in the built-in font.
pub const FONT_CHAR_SIZE: usize = 5;

/// Opcode family: the top nibble of the instruction word.
pub open spec fn spec_op(inst: u16) -> u8 {
    ((inst & OP_MASK) >> 12) as u8
}

/// Register index X: the second nibble of the instruction word.
pub open spec fn spec_x(inst: u16) -> u8 {
    ((inst & X_MASK) >> 8) as u8
}

/// Register index Y: the third nibble of the instruction word.
pub open spec fn spec_y(inst: u16) -> u8 {
    ((inst & Y_MASK) >> 4) as u8
}

/// Immediate N: the low nibble of the instruction word.
pub open spec fn spec_n(inst: u16) -> u8 {
    (inst & N_MASK) as u8
}

/// Immediate NN: the low byte of the instruction word.
pub open spec fn spec_nn(inst: u16) -> u8 {
    (inst & NN_MASK) as u8
}

/// Address NNN: the low 12 bits of the instruction word.
pub open spec fn spec_nnn(inst: u16) -> u16 {
    inst & NNN_MASK
}

/// Extract the opcode family (top nibble).
#[inline]
pub fn take_op(inst: u16) -> (r: u8)
    ensures
        r == spec_op(inst),
        r < 0x10,
{
    proof {
        assert(((inst & 0xf000u16) >> 12) < 0x10) by (bit_vector);
    }
    ((inst & OP_MASK) >> 12) as u8
}

/// Extract the X register index (second nibble).
#[inline]
pub fn take_x(inst: u16) -> (r: u8)
    ensures
        r == spec_x(inst),
        r < 0x10,
{
    proof {
        assert(((inst & 0x0f00u16) >> 8) < 0x10) by (bit_vector);
    }
    ((inst & X_MASK) >> 8) as u8
}

/// Extract the Y register index (third nibble).
#[inline]
pub fn take_y(inst: u16) -> (r: u8)
    ensures
        r == spec_y(inst),
        r < 0x10,
{
    proof {
        assert(((inst & 0x00f0u16) >> 4) < 0x10) by (bit_vector);
    }
    ((inst & Y_MASK) >> 4) as u8
}

/// Extract the N immediate (low nibble).
#[inline]
pub fn take_n(inst: u16) -> (r: u8)
    ensures
        r == spec_n(inst),
        r < 0x10,
{
    proof {
        assert((inst & 0x000fu16) < 0x10) by (bit_vector);
    }
    (inst & N_MASK) as u8
}

/// Extract the NN immediate (low byte).
#[inline]
pub fn take_nn(inst: u16) -> (r: u8)
    ensures
        r == spec_nn(inst),
{
    (inst & NN_MASK) as u8
}

/// Extract the NNN address (low 12 bits).
#[inline]
pub fn take_nnn(inst: u16) -> (r: u16)
    ensures
        r == spec_nnn(inst),
        r < 0x1000,
{
    proof {
        assert((inst & 0x0fffu16) < 0x1000) by (bit_vector);
    }
    inst & NNN_MASK
}

/// The fatal conditions that abort the interpreter loop.
#[derive(Clone, Copy, Debug, PartialEq, Eq, Structural)]
pub enum ExecError {
    /// A variable register index outside V0..VF.
    VRegOutOfBounds,
    /// A push onto a full subroutine stack.
    StackOverflow,
    /// A pop from an empty subroutine stack.
    StackUnderflow,
    /// A RAM read outside the address space.
    MemoryError,
    /// A display access outside the screen.
    DisplayOutOfBounds,
    /// The ROM could not be read or does not fit in RAM.
    LoadRomError,
    /// A RAM write outside the address space.
    RamError,
    /// A key code outside the 16 logical keys.
    KeymapError,
}

/// The 16 logical keys of the hexadecimal keypad.
#[derive(Clone, Copy, Debug, PartialEq, Eq, Hash, Structural)]
pub enum Chip8Key {
    K0,
    K1,
    K2,
    K3,
    K4,
    K5,
    K6,
    K7,
    K8,
    K9,
    A,
    B,
    C,
    D,
    E,
    F,
}

/// The key code of a logical key: its position on the hexadecimal keypad.
pub open spec fn spec_key_code(k: Chip8Key) -> u8 {
    match k {
        Chip8Key::K0 => 0,
        Chip8Key::K1 => 1,
        Chip8Key::K2 => 2,
        Chip8Key::K3 => 3,
        Chip8Key::K4 => 4,
        Chip8Key::K5 => 5,
        Chip8Key::K6 => 6,
        Chip8Key::K7 => 7,
        Chip8Key::K8 => 8,
        Chip8Key::K9 => 9,
        Chip8Key::A => 10,
        Chip8Key::B => 11,
        Chip8Key::C => 12,
        Chip8Key::D => 13,
        Chip8Key::E => 14,
        Chip8Key::F => 15,
    }
}

impl Chip8Key {
    /// The key code of this key.
    pub fn code(self) -> (r: u8)
        ensures
            r == spec_key_code(self),
            r < 0x10,
    {
        match self {
            Chip8Key::K0 => 0,
            Chip8Key::K1 => 1,
            Chip8Key::K2 => 2,
            Chip8Key::K3 => 3,
            Chip8Key::K4 => 4,
            Chip8Key::K5 => 5,
            Chip8Key::K6 => 6,
            Chip8Key::K7 => 7,
            Chip8Key::K8 => 8,
            Chip8Key::K9 => 9,
            Chip8Key::A => 10,
            Chip8Key::B => 11,
            Chip8Key::C => 12,
            Chip8Key::D => 13,
            Chip8Key::E => 14,
            Chip8Key::F => 15,
        }
    }

    /// The logical key with the given key code.
    pub fn from_code(code: u8) -> (r: Chip8Key)
        requires
            code < 0x10,
        ensures
            spec_key_code(r) == code,
    {
        match code {
            0 => Chip8Key::K0,
            1 => Chip8Key::K1,
            2 => Chip8Key::K2,
            3 => Chip8Key::K3,
            4 => Chip8Key::K4,
            5 => Chip8Key::K5,
            6 => Chip8Key::K6,
            7 => Chip8Key::K7,
            8 => Chip8Key::K8,
            9 => Chip8Key::K9,
            10 => Chip8Key::A,
            11 => Chip8Key::B,
            12 => Chip8Key::C,
            13 => Chip8Key::D,
            14 => Chip8Key::E,
            _ => Chip8Key::F,
        }
    }
}

/// The built-in font: 16 glyphs of 5 bytes each, one per hexadecimal digit.
pub open spec fn font_data() -> Seq<u8> {
    seq![
        0xF0, 0x90, 0x90, 0x90, 0xF0, // 0
        0x20, 0x60, 0x20, 0x20, 0x70, // 1
        0xF0, 0x10, 0xF0, 0x80, 0xF0, // 2
        0xF0, 0x10, 0xF0, 0x10, 0xF0, // 3
        0x90, 0x90, 0xF0, 0x10, 0x10, // 4
        0xF0, 0x80, 0xF0, 0x10, 0xF0, // 5
        0xF0, 0x80, 0xF0, 0x90, 0xF0, // 6
        0xF0, 0x10, 0x20, 0x40, 0x40, // 7
        0xF0, 0x90, 0xF0, 0x90, 0xF0, // 8
        0xF0, 0x90, 0xF0, 0x10, 0xF0, // 9
        0xF0, 0x90, 0xF0, 0x90, 0x90, // A
        0xE0, 0x90, 0xE0, 0x90, 0xE0, // B
        0xF0, 0x80, 0x80, 0x80, 0xF0, // C
        0xE0, 0x90, 0x90, 0x90, 0xE0, // D
        0xF0, 0x80, 0xF0, 0x80, 0xF0, // E
        0xF0, 0x80, 0xF0, 0x80, 0x80, // F
    ]
}

/// The built-in font as bytes, ready to be copied into RAM.
pub fn get_default_font() -> (r: Vec<u8>)
    ensures
        r@ == font_data(),
        r@.len() == 16 * FONT_CHAR_SIZE,
{
    let font: Vec<u8> = vec![
        0xF0, 0x90, 0x90, 0x90, 0xF0, // 0
        0x20, 0x60, 0x20, 0x20, 0x70, // 1
        0xF0, 0x10, 0xF0, 0x80, 0xF0, // 2
        0xF0, 0x10, 0xF0, 0x10, 0xF0, // 3
        0x90, 0x90, 0xF0, 0x10, 0x10, // 4
        0xF0, 0x80, 0xF0, 0x10, 0xF0, // 5
        0xF0, 0x80, 0xF0, 0x90, 0xF0, // 6
        0xF0, 0x10, 0x20, 0x40, 0x40, // 7
        0xF0, 0x90, 0xF0, 0x90, 0xF0, // 8
        0xF0, 0x90, 0xF0, 0x10, 0xF0, // 9
        0xF0, 0x90, 0xF0, 0x90, 0x90, // A
        0xE0, 0x90, 0xE0, 0x90, 0xE0, // B
        0xF0, 0x80, 0x80, 0x80, 0xF0, // C
        0xE0, 0x90, 0x90, 0x90, 0xE0, // D
        0xF0, 0x80, 0xF0, 0x80, 0xF0, // E
        0xF0, 0x80, 0xF0, 0x80, 0x80, // F
    ];
    proof {
        assert(font@ =~= font_data());
    }
    font
}

} // verus!
