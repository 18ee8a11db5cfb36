//! Mathematical model of the machine and the meaning of each instruction.
//!
//! `Chip8Model` holds every component of the machine as a plain mathematical
//! value; `step_spec` says, for any machine state and 16-bit instruction word,
//! what the next state is — or which fatal error the instruction raises, in
//! which case the machine is left unchanged.

use vstd::prelude::*;
use crate::device::{
    DISPLAY_H, DISPLAY_SIZE, DISPLAY_W, FONT_LOAD_ADDR, KEY_COUNT, PIXEL_ON, PIXEL_PRE_OFF,
    RAM_SIZE, ROM_LOAD_ADDR, STACK_SIZE, VREG_SIZE,
};
use crate::util::{
    font_data, spec_n, spec_nn, spec_nnn, spec_op, spec_x, spec_y, ExecError, FONT_CHAR_SIZE,
};

verus! {

/// Index of the flag register VF inside the register file.
pub const VF_REG_FLAG: usize = 0x0f;

/// The machine, as mathematics: every register, memory and shared flag as a
/// plain value.
#[verifier::ext_equal]
pub struct Chip8Model {
    /// 4096 bytes of RAM.
    pub ram: Seq<u8>,
    /// The 16 variable registers V0..VF.
    pub vreg: Seq<u8>,
    /// The 16 return-address slots of the subroutine stack.
    pub stack: Seq<u16>,
    /// Stack pointer: index of the top entry, -1 when the stack is empty.
    pub sp: int,
    /// Program counter.
    pub pc: u16,
    /// Index register I.
    pub ireg: u16,
    /// The 64x32 display, one intensity byte per pixel.
    pub display: Seq<u8>,
    /// Delay timer, decremented toward zero at a fixed external rate.
    pub delay_timer: u8,
    /// Sound timer, decremented toward zero at a fixed external rate.
    pub sound_timer: u8,
    /// For each of the 16 logical keys: currently held down.
    pub down_keys: Seq<bool>,
    /// For each of the 16 logical keys: released since last consumed.
    pub released_keys: Seq<bool>,
    /// Legacy toggle: shift opcodes read VY instead of VX.
    pub use_vy_when_shifting: bool,
    /// Legacy toggle: jump-with-offset adds VX instead of V0.
    pub jump_with_offset: bool,
    /// Legacy toggle: register block transfer advances I past the block.
    pub increment_ireg_on_reg_to_mem: bool,
}

impl Chip8Model {
    /// Every component has its fixed capacity and the stack pointer is in range.
    pub open spec fn wf(self) -> bool {
        &&& self.ram.len() == RAM_SIZE
        &&& self.vreg.len() == VREG_SIZE
        &&& self.stack.len() == STACK_SIZE
        &&& self.display.len() == DISPLAY_SIZE
        &&& self.down_keys.len() == KEY_COUNT
        &&& self.released_keys.len() == KEY_COUNT
        &&& -1 <= self.sp < STACK_SIZE
    }
}

/// The program counter after advancing by `k` bytes, wrapping at 16 bits.
pub open spec fn pc_plus(pc: u16, k: u16) -> u16 {
    ((pc + k) % 0x10000) as u16
}

/// The program counter after rewinding by 2 bytes, wrapping at 16 bits.
pub open spec fn pc_minus_two(pc: u16) -> u16 {
    ((pc + 0x10000 - 2) % 0x10000) as u16
}

/// The machine with the next instruction skipped.
pub open spec fn skipped(m: Chip8Model) -> Chip8Model {
    Chip8Model { pc: pc_plus(m.pc, 2), ..m }
}

/// One pixel after a clear: a fully-on pixel becomes "just turned off"
/// (the pre-fade value), never fully off at once; all others keep their value.
pub open spec fn cleared_pixel(p: u8) -> u8 {
    if p > PIXEL_PRE_OFF {
        PIXEL_PRE_OFF
    } else {
        p
    }
}

/// The whole display after a clear.
pub open spec fn cleared_display(d: Seq<u8>) -> Seq<u8> {
    Seq::new(d.len(), |i: int| cleared_pixel(d[i]))
}

/// One pixel after a fade step: a pixel strictly between fully off and fully
/// on decays toward off by `amount`, saturating at zero; others keep their value.
pub open spec fn faded_pixel(p: u8, amount: u8) -> u8 {
    if 0 < p < PIXEL_ON {
        if p - amount >= 0 {
            (p - amount) as u8
        } else {
            0
        }
    } else {
        p
    }
}

/// The whole display after a fade step.
pub open spec fn faded_display(d: Seq<u8>, amount: u8) -> Seq<u8> {
    Seq::new(d.len(), |i: int| faded_pixel(d[i], amount))
}

/// Whether bit `b` (0 = most significant) of a sprite row byte is set.
pub open spec fn sprite_bit(line: u8, b: int) -> bool {
    (0x80u8 >> b as u8) & line != 0
}

/// A pixel flip: off or fading goes fully on; fully on goes to the pre-fade
/// "just turned off" value. The flag is whether an on pixel was turned off.
pub open spec fn flipped_pixel(p: u8) -> (u8, bool) {
    if p == PIXEL_ON {
        (PIXEL_PRE_OFF, true)
    } else {
        (PIXEL_ON, false)
    }
}

/// Display and turned-off flag after drawing the first `bits` bits of one
/// sprite row byte `line` at row `y`, starting at column `x0`. Bits that fall
/// past the right screen edge are dropped; drawing does not wrap.
pub open spec fn draw_row_prefix(
    d: Seq<u8>,
    flag: bool,
    line: u8,
    x0: int,
    y: int,
    bits: int,
) -> (Seq<u8>, bool)
    decreases bits,
{
    if bits <= 0 {
        (d, flag)
    } else {
        let b = bits - 1;
        let (d1, f1) = draw_row_prefix(d, flag, line, x0, y, b);
        if sprite_bit(line, b) && x0 + b < DISPLAY_W {
            let idx = y * DISPLAY_W + x0 + b;
            let (p2, off) = flipped_pixel(d1[idx]);
            (d1.update(idx, p2), f1 || off)
        } else {
            (d1, f1)
        }
    }
}

/// Display and turned-off flag after drawing the first `rows` rows of a sprite
/// read from `ram` at base address `ireg`, at position (`x0`, `y0`). Rows that
/// fall past the bottom screen edge are dropped; drawing does not wrap.
pub open spec fn draw_rows_prefix(
    d: Seq<u8>,
    ram: Seq<u8>,
    ireg: int,
    x0: int,
    y0: int,
    rows: int,
) -> (Seq<u8>, bool)
    decreases rows,
{
    if rows <= 0 {
        (d, false)
    } else {
        let r = rows - 1;
        let (d1, f1) = draw_rows_prefix(d, ram, ireg, x0, y0, r);
        if y0 + r < DISPLAY_H {
            draw_row_prefix(d1, f1, ram[ireg + r], x0, y0 + r, 8)
        } else {
            (d1, f1)
        }
    }
}

/// The draw instruction 0xDXYN: a sprite of N rows from address I is drawn at
/// (VX mod width, VY mod height) by flipping pixels; VF reports whether any on
/// pixel was turned off. Reading a sprite row outside RAM is fatal and leaves
/// the machine unchanged.
pub open spec fn draw_spec(m: Chip8Model, inst: u16) -> Result<Chip8Model, ExecError> {
    let x0 = m.vreg[spec_x(inst) as int] as int % DISPLAY_W as int;
    let y0 = m.vreg[spec_y(inst) as int] as int % DISPLAY_H as int;
    let h = spec_n(inst) as int;
    if h > 0 && m.ireg + h > RAM_SIZE {
        Err(ExecError::MemoryError)
    } else {
        let (d2, flag) = draw_rows_prefix(m.display, m.ram, m.ireg as int, x0, y0, h);
        Ok(
            (Chip8Model {
                display: d2,
                vreg: m.vreg.update(VF_REG_FLAG as int, if flag { 1u8 } else { 0u8 }),
                ..m
            }),
        )
    }
}

/// The register ALU family 0x8XYN: assignment, bitwise operations, add with
/// carry into VF, the two subtractions with not-borrow into VF, and the two
/// shifts with the shifted-out bit into VF. VF is always written last. An
/// unrecognized low nibble changes nothing.
pub open spec fn alu_spec(m: Chip8Model, inst: u16) -> Chip8Model {
    let x = spec_x(inst) as int;
    let y = spec_y(inst) as int;
    let vx = m.vreg[x];
    let vy = m.vreg[y];
    let n = spec_n(inst);
    if n == 0x0 {
        Chip8Model { vreg: m.vreg.update(x, vy), ..m }
    } else if n == 0x1 {
        Chip8Model { vreg: m.vreg.update(x, vx | vy), ..m }
    } else if n == 0x2 {
        Chip8Model { vreg: m.vreg.update(x, vx & vy), ..m }
    } else if n == 0x3 {
        Chip8Model { vreg: m.vreg.update(x, vx ^ vy), ..m }
    } else if n == 0x4 {
        let v = ((vx + vy) % 0x100) as u8;
        let f: u8 = if vx + vy > 0xff { 1 } else { 0 };
        Chip8Model { vreg: m.vreg.update(x, v).update(VF_REG_FLAG as int, f), ..m }
    } else if n == 0x5 {
        let v = ((vx - vy + 0x100) % 0x100) as u8;
        let f: u8 = if vx < vy { 0 } else { 1 };
        Chip8Model { vreg: m.vreg.update(x, v).update(VF_REG_FLAG as int, f), ..m }
    } else if n == 0x6 {
        let src = if m.use_vy_when_shifting { vy } else { vx };
        let f = (src % 2) as u8;
        Chip8Model { vreg: m.vreg.update(x, (src / 2) as u8).update(VF_REG_FLAG as int, f), ..m }
    } else if n == 0x7 {
        let v = ((vy - vx + 0x100) % 0x100) as u8;
        let f: u8 = if vy < vx { 0 } else { 1 };
        Chip8Model { vreg: m.vreg.update(x, v).update(VF_REG_FLAG as int, f), ..m }
    } else if n == 0xe {
        let src = if m.use_vy_when_shifting { vy } else { vx };
        let f = (src / 0x80) as u8;
        Chip8Model {
            vreg: m.vreg.update(x, ((src * 2) % 0x100) as u8).update(VF_REG_FLAG as int, f),
            ..m
        }
    } else {
        m
    }
}

/// The lowest-numbered key whose released flag is set, searching from `i` up.
pub open spec fn first_released_from(released: Seq<bool>, i: int) -> Option<int>
    decreases KEY_COUNT - i,
{
    if i >= KEY_COUNT {
        None
    } else if released[i] {
        Some(i)
    } else {
        first_released_from(released, i + 1)
    }
}

/// The timer and miscellaneous family 0xFXNN. An unrecognized low byte
/// changes nothing.
pub open spec fn misc_spec(m: Chip8Model, inst: u16) -> Result<Chip8Model, ExecError> {
    let x = spec_x(inst) as int;
    let vx = m.vreg[x];
    let nn = spec_nn(inst);
    if nn == 0x07 {
        Ok((Chip8Model { vreg: m.vreg.update(x, m.delay_timer), ..m }))
    } else if nn == 0x15 {
        Ok((Chip8Model { delay_timer: vx, ..m }))
    } else if nn == 0x18 {
        Ok((Chip8Model { sound_timer: vx, ..m }))
    } else if nn == 0x1e {
        let sum = ((m.ireg + vx) % 0x10000) as u16;
        let vreg2 = if sum > 0x0fff {
            m.vreg.update(VF_REG_FLAG as int, 1u8)
        } else {
            m.vreg
        };
        Ok((Chip8Model { ireg: sum, vreg: vreg2, ..m }))
    } else if nn == 0x0a {
        match first_released_from(m.released_keys, 0) {
            Some(k) => Ok(
                (Chip8Model {
                    released_keys: m.released_keys.update(k, false),
                    vreg: m.vreg.update(x, k as u8),
                    ..m
                }),
            ),
            None => Ok((Chip8Model { pc: pc_minus_two(m.pc), ..m })),
        }
    } else if nn == 0x29 {
        let glyph = (vx & 0x0f) as int;
        Ok((Chip8Model { ireg: (FONT_LOAD_ADDR + glyph * FONT_CHAR_SIZE) as u16, ..m }))
    } else if nn == 0x33 {
        if m.ireg + 2 < RAM_SIZE {
            let i = m.ireg as int;
            let ram2 = m.ram.update(i, (vx / 100) as u8).update(
                i + 1,
                ((vx / 10) % 10) as u8,
            ).update(i + 2, (vx % 10) as u8);
            Ok((Chip8Model { ram: ram2, ..m }))
        } else {
            Err(ExecError::RamError)
        }
    } else if nn == 0x55 {
        let xi = x;
        if m.ireg + xi < RAM_SIZE {
            let i = m.ireg as int;
            let ram2 = Seq::new(
                m.ram.len(),
                |j: int| if i <= j <= i + xi { m.vreg[j - i] } else { m.ram[j] },
            );
            let ireg2 = if m.increment_ireg_on_reg_to_mem {
                (i + xi + 1) as u16
            } else {
                m.ireg
            };
            Ok((Chip8Model { ram: ram2, ireg: ireg2, ..m }))
        } else {
            Err(ExecError::RamError)
        }
    } else if nn == 0x65 {
        let xi = x;
        if m.ireg + xi < RAM_SIZE {
            let i = m.ireg as int;
            let vreg2 = Seq::new(
                m.vreg.len(),
                |j: int| if 0 <= j <= xi { m.ram[i + j] } else { m.vreg[j] },
            );
            let ireg2 = if m.increment_ireg_on_reg_to_mem {
                (i + xi + 1) as u16
            } else {
                m.ireg
            };
            Ok((Chip8Model { vreg: vreg2, ireg: ireg2, ..m }))
        } else {
            Err(ExecError::RamError)
        }
    } else {
        Ok(m)
    }
}

/// The system family 0x0NNN: clear the display, or return from a subroutine;
/// any other address changes nothing.
pub open spec fn system_spec(m: Chip8Model, inst: u16) -> Result<Chip8Model, ExecError> {
    let nnn = spec_nnn(inst);
    if nnn == 0x0e0 {
        Ok((Chip8Model { display: cleared_display(m.display), ..m }))
    } else if nnn == 0x0ee {
        if m.sp >= 0 {
            Ok((Chip8Model { pc: m.stack[m.sp], sp: m.sp - 1, ..m }))
        } else {
            Err(ExecError::StackUnderflow)
        }
    } else {
        Ok(m)
    }
}

/// The key-conditional family 0xEXNN: skip on key down / key up. A register
/// value outside the 16 logical keys cannot be mapped and is fatal.
pub open spec fn key_skip_spec(m: Chip8Model, inst: u16) -> Result<Chip8Model, ExecError> {
    let vx = m.vreg[spec_x(inst) as int];
    let nn = spec_nn(inst);
    if nn == 0x9e {
        if vx >= KEY_COUNT {
            Err(ExecError::KeymapError)
        } else if m.down_keys[vx as int] {
            Ok(skipped(m))
        } else {
            Ok(m)
        }
    } else if nn == 0xa1 {
        if vx >= KEY_COUNT {
            Err(ExecError::KeymapError)
        } else if !m.down_keys[vx as int] {
            Ok(skipped(m))
        } else {
            Ok(m)
        }
    } else {
        Ok(m)
    }
}

/// What one decoded instruction does to the machine: the next state, or the
/// fatal error it raises — in which case the machine is unchanged. `rnd` is
/// the byte an external randomness source supplied for this cycle; only the
/// 0xCXNN instruction reads it.
pub open spec fn step_spec(m: Chip8Model, inst: u16, rnd: u8) -> Result<Chip8Model, ExecError> {
    let op = spec_op(inst);
    let x = spec_x(inst) as int;
    let y = spec_y(inst) as int;
    let nn = spec_nn(inst);
    let nnn = spec_nnn(inst);
    if op == 0x0 {
        system_spec(m, inst)
    } else if op == 0x1 {
        Ok((Chip8Model { pc: nnn, ..m }))
    } else if op == 0x2 {
        if m.sp < STACK_SIZE - 1 {
            Ok((Chip8Model { stack: m.stack.update(m.sp + 1, m.pc), sp: m.sp + 1, pc: nnn, ..m }))
        } else {
            Err(ExecError::StackOverflow)
        }
    } else if op == 0x3 {
        if m.vreg[x] == nn {
            Ok(skipped(m))
        } else {
            Ok(m)
        }
    } else if op == 0x4 {
        if m.vreg[x] != nn {
            Ok(skipped(m))
        } else {
            Ok(m)
        }
    } else if op == 0x5 {
        if spec_n(inst) == 0 && m.vreg[x] == m.vreg[y] {
            Ok(skipped(m))
        } else {
            Ok(m)
        }
    } else if op == 0x6 {
        Ok((Chip8Model { vreg: m.vreg.update(x, nn), ..m }))
    } else if op == 0x7 {
        Ok((Chip8Model { vreg: m.vreg.update(x, ((m.vreg[x] + nn) % 0x100) as u8), ..m }))
    } else if op == 0x8 {
        Ok(alu_spec(m, inst))
    } else if op == 0x9 {
        if spec_n(inst) == 0 && m.vreg[x] != m.vreg[y] {
            Ok(skipped(m))
        } else {
            Ok(m)
        }
    } else if op == 0xa {
        Ok((Chip8Model { ireg: nnn, ..m }))
    } else if op == 0xb {
        let offset = if m.jump_with_offset {
            m.vreg[x]
        } else {
            m.vreg[0]
        };
        Ok((Chip8Model { pc: ((nnn + offset) % 0x10000) as u16, ..m }))
    } else if op == 0xc {
        Ok((Chip8Model { vreg: m.vreg.update(x, rnd & nn), ..m }))
    } else if op == 0xd {
        draw_spec(m, inst)
    } else if op == 0xe {
        key_skip_spec(m, inst)
    } else {
        misc_spec(m, inst)
    }
}

/// A timer value after one decrement step: counted down toward zero, never
/// below it.
pub open spec fn decremented(t: u8) -> u8 {
    if t == 0 {
        0
    } else {
        (t - 1) as u8
    }
}

/// RAM after a block of bytes has been copied in at `offset`.
pub open spec fn loaded_ram(ram: Seq<u8>, bytes: Seq<u8>, offset: int) -> Seq<u8> {
    Seq::new(
        ram.len(),
        |j: int| if offset <= j < offset + bytes.len() {
            bytes[j - offset]
        } else {
            ram[j]
        },
    )
}

/// The machine at session start: RAM zeroed but for the font at its fixed
/// address and the program at the load address, PC at the load address,
/// everything else cleared, and the behavior toggles at their modern defaults.
pub open spec fn initial_model(rom: Seq<u8>) -> Chip8Model {
    Chip8Model {
        ram: loaded_ram(
            loaded_ram(Seq::new(RAM_SIZE as nat, |j: int| 0u8), rom, ROM_LOAD_ADDR as int),
            font_data(),
            FONT_LOAD_ADDR as int,
        ),
        vreg: Seq::new(VREG_SIZE as nat, |j: int| 0u8),
        stack: Seq::new(STACK_SIZE as nat, |j: int| 0u16),
        sp: -1,
        pc: ROM_LOAD_ADDR as u16,
        ireg: 0,
        display: Seq::new(DISPLAY_SIZE as nat, |j: int| 0u8),
        delay_timer: 0,
        sound_timer: 0,
        down_keys: Seq::new(KEY_COUNT as nat, |j: int| false),
        released_keys: Seq::new(KEY_COUNT as nat, |j: int| false),
        use_vy_when_shifting: false,
        jump_with_offset: false,
        increment_ireg_on_reg_to_mem: false,
    }
}

/// The fetch half of a cycle: the big-endian instruction word at PC, with PC
/// advanced past it. A PC whose two bytes do not both lie in RAM is fatal and
/// leaves the machine unchanged.
pub open spec fn fetch_spec(m: Chip8Model) -> Result<(Chip8Model, u16), ExecError> {
    if m.pc + 1 < RAM_SIZE {
        let word = ((m.ram[m.pc as int] as u16) * 0x100 + m.ram[m.pc + 1] as u16) as u16;
        Ok(((Chip8Model { pc: (m.pc + 2) as u16, ..m }), word))
    } else {
        Err(ExecError::MemoryError)
    }
}

/// One whole instruction cycle: fetch at PC, then execute what was fetched.
pub open spec fn cycle_spec(m: Chip8Model, rnd: u8) -> Result<Chip8Model, ExecError> {
    match fetch_spec(m) {
        Ok((m1, inst)) => step_spec(m1, inst, rnd),
        Err(e) => Err(e),
    }
}

/// Whether the outcome of one executed cycle agrees with the modelled one,
/// for random byte `b`: a fetch error leaves the machine unchanged; an
/// execute error leaves it as fetch left it, with PC advanced.
pub open spec fn cycle_agrees(
    pre: Chip8Model,
    b: u8,
    r: Result<(), ExecError>,
    post: Chip8Model,
) -> bool {
    match fetch_spec(pre) {
        Ok((m1, inst)) => agrees(step_spec(m1, inst, b), r, m1, post),
        Err(e) => r == Err::<(), ExecError>(e) && post == pre,
    }
}

/// Whether the outcome of an executed instruction agrees with the modelled
/// one: on success the machine reached the modelled state; on error it is the
/// modelled error and the machine did not change.
pub open spec fn agrees(
    modelled: Result<Chip8Model, ExecError>,
    r: Result<(), ExecError>,
    pre: Chip8Model,
    post: Chip8Model,
) -> bool {
    match modelled {
        Ok(m2) => r is Ok && post == m2,
        Err(e) => r == Err::<(), ExecError>(e) && post == pre,
    }
}

} // verus!
