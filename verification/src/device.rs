//! The machine itself: registers, RAM, stack, timers, display and key state,
//! with the fetch-decode-execute step and the display and timer operations.

use vstd::prelude::*;
use crate::model::{
    agrees, alu_spec, cleared_display, cleared_pixel, cycle_agrees, cycle_spec, decremented,
    draw_row_prefix,
    draw_rows_prefix, faded_display, faded_pixel, fetch_spec, first_released_from, flipped_pixel,
    initial_model, key_skip_spec, loaded_ram, misc_spec, pc_minus_two, pc_plus, skipped,
    step_spec, system_spec, Chip8Model, VF_REG_FLAG,
};
use crate::util::{
    spec_key_code, spec_op, spec_x, spec_y, take_n, take_nn, take_nnn, take_op, take_x, take_y,
    Chip8Key, ExecError, FONT_CHAR_SIZE,
};

verus! {

/// Display height in pixels.
pub const DISPLAY_H: usize = 32;
/// Display width in pixels.
pub const DISPLAY_W: usize = 64;

/// RAM address where the built-in font is loaded.
pub const FONT_LOAD_ADDR: usize = 0x50;

/// RAM address where the program is loaded and where execution starts.
pub const ROM_LOAD_ADDR: usize = 0x200;

/// Number of pixels of the display.
pub const DISPLAY_SIZE: usize = DISPLAY_H * DISPLAY_W;
/// Capacity of the subroutine stack.
pub const STACK_SIZE: usize = 16;
/// Number of variable registers.
pub const VREG_SIZE: usize = 16;
/// Size of the address space in bytes.
pub const RAM_SIZE: usize = 4096;
/// Number of logical keys.
pub const KEY_COUNT: usize = 16;

/// Instruction rate the interpreter loop targets, per second.
pub const IPS: usize = 700;

/// Rate at which the timers are decremented, per second.
pub const TIMERS_FREQ: usize = 60;

/// Intensity of a pixel that is fully on.
pub const PIXEL_ON: u8 = 0xff;
/// Intensity of a pixel just turned off, from which it fades toward off.
pub const PIXEL_PRE_OFF: u8 = 0xfe;
/// Intensity of a pixel that is fully off.
pub const PIXEL_OFF: u8 = 0x00;

/// Translate an (x, y) screen location to an index into the display buffer.
#[inline]
pub fn loc_to_idx(x: usize, y: usize) -> (r: usize)
    requires
        x < DISPLAY_W,
        y < DISPLAY_H,
    ensures
        r == y * DISPLAY_W + x,
        r < DISPLAY_SIZE,
{
    y * DISPLAY_W + x
}

/// Whether a pixel intensity counts as on.
#[inline]
pub fn is_pixel_on(pixel: u8) -> (r: bool)
    ensures
        r == (pixel == PIXEL_ON),
{
    pixel == PIXEL_ON
}

/// The CHIP-8 machine.
///
/// The timers, the display and the key flags are shared with external
/// collaborators (a 60 Hz timer driver, a renderer, an input poller); here
/// they are plain values, and the embedding program arranges the sharing.
pub struct Chip8 {
    /// 64x32 display, one intensity byte per pixel.
    pub display: Vec<u8>,
    /// Program counter.
    pub pc: u16,
    /// Index register I.
    pub ireg: u16,
    /// Subroutine stack.
    pub stack: Vec<u16>,
    /// Stack pointer: index of the top entry, -1 when the stack is empty.
    pub sp: i8,
    /// Variable registers V0..VF.
    pub vreg: Vec<u8>,
    /// 4 kb of random access memory.
    pub ram: Vec<u8>,
    /// Delay timer, decremented at the timer rate by an external driver.
    pub delay_timer: u8,
    /// Sound timer — beep while non-zero — decremented like the delay timer.
    pub sound_timer: u8,
    /// Keys that are currently pressed, by key code.
    pub down_keys: Vec<bool>,
    /// Keys that were released during the current frame, by key code.
    pub released_keys: Vec<bool>,
    /// Legacy toggle: shift opcodes read VY instead of VX.
    pub use_vy_when_shifting: bool,
    /// Legacy toggle: jump-with-offset adds VX instead of V0.
    pub jump_with_offset: bool,
    /// Legacy toggle: register block transfer advances I past the block.
    pub increment_ireg_on_reg_to_mem: bool,
}

impl View for Chip8 {
    type V = Chip8Model;

    open spec fn view(&self) -> Chip8Model {
        Chip8Model {
            ram: self.ram@,
            vreg: self.vreg@,
            stack: self.stack@,
            sp: self.sp as int,
            pc: self.pc,
            ireg: self.ireg,
            display: self.display@,
            delay_timer: self.delay_timer,
            sound_timer: self.sound_timer,
            down_keys: self.down_keys@,
            released_keys: self.released_keys@,
            use_vy_when_shifting: self.use_vy_when_shifting,
            jump_with_offset: self.jump_with_offset,
            increment_ireg_on_reg_to_mem: self.increment_ireg_on_reg_to_mem,
        }
    }
}

impl Chip8 {
    /// The value of VX, the register the instruction's X nibble selects.
    pub fn vx(&self, inst: u16) -> (r: u8)
        requires
            self@.wf(),
        ensures
            r == self@.vreg[spec_x(inst) as int],
    {
        self.vreg[take_x(inst) as usize]
    }

    /// The value of VY, the register the instruction's Y nibble selects.
    pub fn vy(&self, inst: u16) -> (r: u8)
        requires
            self@.wf(),
        ensures
            r == self@.vreg[spec_y(inst) as int],
    {
        self.vreg[take_y(inst) as usize]
    }

    /// The value of the flag register VF.
    pub fn vf(&self) -> (r: u8)
        requires
            self@.wf(),
        ensures
            r == self@.vreg[VF_REG_FLAG as int],
    {
        self.vreg[VF_REG_FLAG]
    }

    /// Push a return address; a push past the stack's capacity is fatal and
    /// changes nothing.
    pub fn stack_push(&mut self, val: u16) -> (r: Result<(), ExecError>)
        requires
            old(self)@.wf(),
        ensures
            final(self)@.wf(),
            old(self)@.sp < STACK_SIZE - 1 ==> r is Ok && final(self)@ == (Chip8Model {
                stack: old(self)@.stack.update(old(self)@.sp + 1, val),
                sp: old(self)@.sp + 1,
                ..old(self)@
            }),
            old(self)@.sp == STACK_SIZE - 1 ==> r == Err::<(), ExecError>(
                ExecError::StackOverflow,
            ) && final(self)@ == old(self)@,
    {
        if self.sp < STACK_SIZE as i8 - 1 {
            let idx = (self.sp + 1) as usize;
            self.stack[idx] = val;
            self.sp = self.sp + 1;
            proof {
                assert(self@ =~= (Chip8Model {
                    stack: old(self)@.stack.update(old(self)@.sp + 1, val),
                    sp: old(self)@.sp + 1,
                    ..old(self)@
                }));
            }
            Ok(())
        } else {
            Err(ExecError::StackOverflow)
        }
    }

    /// Pop a return address; a pop from an empty stack is fatal and changes
    /// nothing.
    pub fn stack_pop(&mut self) -> (r: Result<u16, ExecError>)
        requires
            old(self)@.wf(),
        ensures
            final(self)@.wf(),
            old(self)@.sp >= 0 ==> r == Ok::<u16, ExecError>(
                old(self)@.stack[old(self)@.sp],
            ) && final(self)@ == (Chip8Model { sp: old(self)@.sp - 1, ..old(self)@ }),
            old(self)@.sp < 0 ==> r == Err::<u16, ExecError>(
                ExecError::StackUnderflow,
            ) && final(self)@ == old(self)@,
    {
        if self.sp >= 0 {
            let val = self.stack[self.sp as usize];
            self.sp = self.sp - 1;
            proof {
                assert(self@ =~= (Chip8Model { sp: old(self)@.sp - 1, ..old(self)@ }));
            }
            Ok(val)
        } else {
            Err(ExecError::StackUnderflow)
        }
    }

    /// Copy `bytes` into RAM at the given start offset; a block that does not
    /// fit inside RAM is fatal and changes nothing.
    pub fn load(&mut self, bytes: &Vec<u8>, offset: usize) -> (r: Result<(), ExecError>)
        requires
            old(self)@.wf(),
        ensures
            final(self)@.wf(),
            offset + bytes@.len() <= RAM_SIZE ==> r is Ok && final(self)@ == (Chip8Model {
                ram: loaded_ram(old(self)@.ram, bytes@, offset as int),
                ..old(self)@
            }),
            offset + bytes@.len() > RAM_SIZE ==> r == Err::<(), ExecError>(
                ExecError::MemoryError,
            ) && final(self)@ == old(self)@,
    {
        if offset <= RAM_SIZE && bytes.len() <= RAM_SIZE - offset {
            let mut i: usize = 0;
            while i < bytes.len()
                invariant
                    old(self)@.wf(),
                    i <= bytes@.len(),
                    offset + bytes@.len() <= RAM_SIZE,
                    self.ram@.len() == RAM_SIZE,
                    self@ == (Chip8Model { ram: self.ram@, ..old(self)@ }),
                    forall|j: int|
                        0 <= j < RAM_SIZE && !(offset <= j < offset + i) ==> self.ram@[j]
                            == old(self)@.ram[j],
                    forall|j: int|
                        offset <= j < offset + i ==> self.ram@[j] == bytes@[j - offset],
                decreases bytes@.len() - i,
            {
                self.ram[offset + i] = bytes[i];
                i = i + 1;
            }
            proof {
                assert(self@ =~= (Chip8Model {
                    ram: loaded_ram(old(self)@.ram, bytes@, offset as int),
                    ..old(self)@
                }));
            }
            Ok(())
        } else {
            Err(ExecError::MemoryError)
        }
    }

    /// A machine at session start: RAM zeroed, font and program copied in,
    /// PC at the program origin, and the behavior toggles at their modern
    /// defaults. A program that does not fit in RAM is fatal.
    pub fn new(rom: Vec<u8>) -> (r: Result<Chip8, ExecError>)
        ensures
            rom@.len() <= RAM_SIZE - ROM_LOAD_ADDR ==> (r matches Ok(c) && c@.wf() && c@
                == initial_model(rom@)),
            rom@.len() > RAM_SIZE - ROM_LOAD_ADDR ==> (r matches Err(e) && e
                == ExecError::MemoryError),
    {
        let mut device = Chip8 {
            display: vec![0u8; DISPLAY_SIZE],
            pc: ROM_LOAD_ADDR as u16,
            ireg: 0,
            stack: vec![0u16; STACK_SIZE],
            sp: -1,
            vreg: vec![0u8; VREG_SIZE],
            ram: vec![0u8; RAM_SIZE],
            delay_timer: 0,
            sound_timer: 0,
            down_keys: vec![false; KEY_COUNT],
            released_keys: vec![false; KEY_COUNT],
            use_vy_when_shifting: false,
            jump_with_offset: false,
            increment_ireg_on_reg_to_mem: false,
        };
        device.load(&rom, ROM_LOAD_ADDR)?;
        let font = crate::util::get_default_font();
        device.load(&font, FONT_LOAD_ADDR)?;
        proof {
            assert(device@ =~= initial_model(rom@));
        }
        Ok(device)
    }

    /// Fetch the big-endian instruction word at PC and advance PC past it;
    /// a PC whose two bytes do not both lie in RAM is fatal and changes
    /// nothing.
    pub fn fetch(&mut self) -> (r: Result<u16, ExecError>)
        requires
            old(self)@.wf(),
        ensures
            final(self)@.wf(),
            match r {
                Ok(inst) => fetch_spec(old(self)@) == Ok::<(Chip8Model, u16), ExecError>(
                    (final(self)@, inst),
                ),
                Err(e) => fetch_spec(old(self)@) == Err::<(Chip8Model, u16), ExecError>(e)
                    && final(self)@ == old(self)@,
            },
    {
        let pc = self.pc as usize;
        if pc + 1 < RAM_SIZE {
            let a = self.ram[pc];
            let b = self.ram[pc + 1];
            self.pc = self.pc + 2;
            let word = ((a as u16) << 8) | (b as u16);
            proof {
                let au = a as u16;
                let bu = b as u16;
                assert((au << 8) | bu == au * 0x100 + bu) by (bit_vector)
                    requires
                        au < 0x100,
                        bu < 0x100,
                ;
                assert(self@ =~= (Chip8Model { pc: (old(self)@.pc + 2) as u16, ..old(self)@ }));
            }
            Ok(word)
        } else {
            Err(ExecError::MemoryError)
        }
    }

    /// Clear the display: every fully-on pixel becomes "just turned off"
    /// (the pre-fade value, never fully off at once); all others keep their
    /// value.
    pub fn clear_display(&mut self)
        requires
            old(self)@.wf(),
        ensures
            final(self)@.wf(),
            final(self)@ == (Chip8Model {
                display: cleared_display(old(self)@.display),
                ..old(self)@
            }),
    {
        let mut i: usize = 0;
        while i < DISPLAY_SIZE
            invariant
                old(self)@.wf(),
                i <= DISPLAY_SIZE,
                self.display@.len() == DISPLAY_SIZE,
                self@ == (Chip8Model { display: self.display@, ..old(self)@ }),
                forall|j: int|
                    0 <= j < i ==> self.display@[j] == cleared_pixel(old(self)@.display[j]),
                forall|j: int|
                    i <= j < DISPLAY_SIZE ==> self.display@[j] == old(self)@.display[j],
            decreases DISPLAY_SIZE - i,
        {
            if self.display[i] > PIXEL_PRE_OFF {
                self.display[i] = PIXEL_PRE_OFF;
            }
            i = i + 1;
        }
        proof {
            assert(self@ =~= (Chip8Model {
                display: cleared_display(old(self)@.display),
                ..old(self)@
            }));
        }
    }

    /// One fade step, meant to be driven by the renderer once per frame:
    /// every pixel strictly between fully off and fully on decays toward off
    /// by `amount`, saturating at fully off.
    pub fn fade_display(&mut self, amount: u8)
        requires
            old(self)@.wf(),
        ensures
            final(self)@.wf(),
            final(self)@ == (Chip8Model {
                display: faded_display(old(self)@.display, amount),
                ..old(self)@
            }),
    {
        let mut i: usize = 0;
        while i < DISPLAY_SIZE
            invariant
                old(self)@.wf(),
                i <= DISPLAY_SIZE,
                self.display@.len() == DISPLAY_SIZE,
                self@ == (Chip8Model { display: self.display@, ..old(self)@ }),
                forall|j: int|
                    0 <= j < i ==> self.display@[j] == faded_pixel(old(self)@.display[j], amount),
                forall|j: int|
                    i <= j < DISPLAY_SIZE ==> self.display@[j] == old(self)@.display[j],
            decreases DISPLAY_SIZE - i,
        {
            let p = self.display[i];
            if PIXEL_OFF < p && p < PIXEL_ON {
                if p >= amount {
                    self.display[i] = p - amount;
                } else {
                    self.display[i] = 0;
                }
            }
            i = i + 1;
        }
        proof {
            assert(self@ =~= (Chip8Model {
                display: faded_display(old(self)@.display, amount),
                ..old(self)@
            }));
        }
    }

    /// The intensity of the pixel at (x, y); fully off for a location outside
    /// the screen.
    pub fn get_pixel_value(&self, x: usize, y: usize) -> (r: u8)
        requires
            self@.wf(),
        ensures
            r == (if x < DISPLAY_W && y < DISPLAY_H {
                self@.display[y * DISPLAY_W + x]
            } else {
                PIXEL_OFF
            }),
    {
        if x < DISPLAY_W && y < DISPLAY_H {
            self.display[loc_to_idx(x, y)]
        } else {
            PIXEL_OFF
        }
    }

    /// Flip the pixel at (x, y): off or fading goes fully on; fully on goes
    /// to the pre-fade "just turned off" value. Returns whether an on pixel
    /// was turned off.
    pub fn flip_pixel(&mut self, x: usize, y: usize) -> (r: bool)
        requires
            old(self)@.wf(),
            x < DISPLAY_W,
            y < DISPLAY_H,
        ensures
            final(self)@.wf(),
            final(self)@ == (Chip8Model {
                display: old(self)@.display.update(
                    y * DISPLAY_W + x,
                    flipped_pixel(old(self)@.display[y * DISPLAY_W + x]).0,
                ),
                ..old(self)@
            }),
            r == flipped_pixel(old(self)@.display[y * DISPLAY_W + x]).1,
    {
        let idx = loc_to_idx(x, y);
        let was_on = self.display[idx] == PIXEL_ON;
        if was_on {
            self.display[idx] = PIXEL_PRE_OFF;
        } else {
            self.display[idx] = PIXEL_ON;
        }
        proof {
            assert(self@ =~= (Chip8Model {
                display: old(self)@.display.update(
                    y * DISPLAY_W + x,
                    flipped_pixel(old(self)@.display[y * DISPLAY_W + x]).0,
                ),
                ..old(self)@
            }));
        }
        was_on
    }

    /// Draw an `h`-row sprite read from RAM at address I, at screen position
    /// (x mod width, y mod height), flipping pixels most-significant bit
    /// first; VF reports whether any on pixel was turned off. Drawing does
    /// not wrap at the screen edges — out-of-bounds pixels are dropped. A
    /// sprite row outside RAM is fatal and changes nothing.
    #[verifier::loop_isolation(false)]
    pub fn draw_sprite(&mut self, x: u8, y: u8, h: u8) -> (r: Result<(), ExecError>)
        requires
            old(self)@.wf(),
        ensures
            final(self)@.wf(),
            ({
                let x0 = x as int % DISPLAY_W as int;
                let y0 = y as int % DISPLAY_H as int;
                if h > 0 && old(self)@.ireg + h > RAM_SIZE {
                    r == Err::<(), ExecError>(ExecError::MemoryError) && final(self)@ == old(
                        self,
                    )@
                } else {
                    let (d2, flag) = draw_rows_prefix(
                        old(self)@.display,
                        old(self)@.ram,
                        old(self)@.ireg as int,
                        x0,
                        y0,
                        h as int,
                    );
                    r is Ok && final(self)@ == (Chip8Model {
                        display: d2,
                        vreg: old(self)@.vreg.update(
                            VF_REG_FLAG as int,
                            if flag {
                                1u8
                            } else {
                                0u8
                            },
                        ),
                        ..old(self)@
                    })
                }
            }),
    {
        let x0 = (x as usize) % DISPLAY_W;
        let y0 = (y as usize) % DISPLAY_H;
        if h > 0 && RAM_SIZE - (h as usize) < self.ireg as usize {
            return Err(ExecError::MemoryError);
        }
        self.vreg[VF_REG_FLAG] = 0;
        let mut row: usize = 0;
        while row < h as usize
            invariant
                row <= h,
                self.display@.len() == DISPLAY_SIZE,
                self.vreg@.len() == VREG_SIZE,
                ({
                    let (d, f) = draw_rows_prefix(
                        old(self)@.display,
                        old(self)@.ram,
                        old(self)@.ireg as int,
                        x0 as int,
                        y0 as int,
                        row as int,
                    );
                    self.display@ == d && self.vreg@ == old(self)@.vreg.update(
                        VF_REG_FLAG as int,
                        if f {
                            1u8
                        } else {
                            0u8
                        },
                    )
                }),
                self@ == (Chip8Model { display: self.display@, vreg: self.vreg@, ..old(self)@ }),
            decreases h - row,
        {
            let addr = self.ireg as usize + row;
            let line = self.ram[addr];
            if y0 + row < DISPLAY_H {
                let ghost start = draw_rows_prefix(
                    old(self)@.display,
                    old(self)@.ram,
                    old(self)@.ireg as int,
                    x0 as int,
                    y0 as int,
                    row as int,
                );
                let mut bit: usize = 0;
                while bit < 8
                    invariant
                        bit <= 8,
                        self.display@.len() == DISPLAY_SIZE,
                        self.vreg@.len() == VREG_SIZE,
                        ({
                            let (d, f) = draw_row_prefix(
                                start.0,
                                start.1,
                                line,
                                x0 as int,
                                y0 + row,
                                bit as int,
                            );
                            self.display@ == d && self.vreg@ == old(self)@.vreg.update(
                                VF_REG_FLAG as int,
                                if f {
                                    1u8
                                } else {
                                    0u8
                                },
                            )
                        }),
                        self@ == (Chip8Model {
                            display: self.display@,
                            vreg: self.vreg@,
                            ..old(self)@
                        }),
                    decreases 8 - bit,
                {
                    if (0x80u8 >> (bit as u8)) & line != 0 {
                        if x0 + bit < DISPLAY_W {
                            let turned_off = self.flip_pixel(x0 + bit, y0 + row);
                            if turned_off {
                                self.vreg[VF_REG_FLAG] = 1;
                                proof {
                                    assert(self.vreg@ =~= old(self)@.vreg.update(
                                        VF_REG_FLAG as int,
                                        1u8,
                                    ));
                                }
                            }
                        }
                    }
                    bit = bit + 1;
                }
            }
            row = row + 1;
        }
        proof {
            let (d2, flag) = draw_rows_prefix(
                old(self)@.display,
                old(self)@.ram,
                old(self)@.ireg as int,
                x0 as int,
                y0 as int,
                h as int,
            );
            assert(self@ =~= (Chip8Model {
                display: d2,
                vreg: old(self)@.vreg.update(
                    VF_REG_FLAG as int,
                    if flag {
                        1u8
                    } else {
                        0u8
                    },
                ),
                ..old(self)@
            }));
        }
        Ok(())
    }

    /// One decrement step for both timers, counted down toward zero and never
    /// below it; meant to be driven at the timer rate by an external driver,
    /// never by the interpreter itself.
    pub fn decrement_timers(&mut self)
        requires
            old(self)@.wf(),
        ensures
            final(self)@.wf(),
            final(self)@ == (Chip8Model {
                delay_timer: decremented(old(self)@.delay_timer),
                sound_timer: decremented(old(self)@.sound_timer),
                ..old(self)@
            }),
    {
        if self.delay_timer > 0 {
            self.delay_timer = self.delay_timer - 1;
        }
        if self.sound_timer > 0 {
            self.sound_timer = self.sound_timer - 1;
        }
        proof {
            assert(self@ =~= (Chip8Model {
                delay_timer: decremented(old(self)@.delay_timer),
                sound_timer: decremented(old(self)@.sound_timer),
                ..old(self)@
            }));
        }
    }

    /// Record whether a logical key is currently held down; written by the
    /// external input poller.
    pub fn set_key_down(&mut self, k: Chip8Key, state: bool)
        requires
            old(self)@.wf(),
        ensures
            final(self)@.wf(),
            final(self)@ == (Chip8Model {
                down_keys: old(self)@.down_keys.update(spec_key_code(k) as int, state),
                ..old(self)@
            }),
    {
        let code = k.code();
        self.down_keys[code as usize] = state;
        proof {
            assert(self@ =~= (Chip8Model {
                down_keys: old(self)@.down_keys.update(spec_key_code(k) as int, state),
                ..old(self)@
            }));
        }
    }

    /// Record whether a logical key was released during the current frame;
    /// written by the external input poller and consumed by the blocking
    /// key-wait instruction.
    pub fn set_key_released(&mut self, k: Chip8Key, state: bool)
        requires
            old(self)@.wf(),
        ensures
            final(self)@.wf(),
            final(self)@ == (Chip8Model {
                released_keys: old(self)@.released_keys.update(spec_key_code(k) as int, state),
                ..old(self)@
            }),
    {
        let code = k.code();
        self.released_keys[code as usize] = state;
        proof {
            assert(self@ =~= (Chip8Model {
                released_keys: old(self)@.released_keys.update(spec_key_code(k) as int, state),
                ..old(self)@
            }));
        }
    }

    /// Whether a logical key is currently held down.
    pub fn is_key_pressed(&self, k: Chip8Key) -> (r: bool)
        requires
            self@.wf(),
        ensures
            r == self@.down_keys[spec_key_code(k) as int],
    {
        let code = k.code();
        self.down_keys[code as usize]
    }

    /// Whether a logical key was released during the current frame.
    pub fn was_key_released(&self, k: Chip8Key) -> (r: bool)
        requires
            self@.wf(),
        ensures
            r == self@.released_keys[spec_key_code(k) as int],
    {
        let code = k.code();
        self.released_keys[code as usize]
    }

    /// Skip one instruction: advance PC by 2, wrapping at 16 bits.
    pub fn skip_inst(&mut self)
        requires
            old(self)@.wf(),
        ensures
            final(self)@.wf(),
            final(self)@ == skipped(old(self)@),
    {
        self.pc = self.pc.wrapping_add(2);
        proof {
            assert(self.pc == pc_plus(old(self)@.pc, 2));
        }
    }

    /// Rewind one instruction: move PC back by 2, wrapping at 16 bits;
    /// the opposite of `skip_inst`.
    pub fn reverse_inst(&mut self)
        requires
            old(self)@.wf(),
        ensures
            final(self)@.wf(),
            final(self)@ == (Chip8Model { pc: pc_minus_two(old(self)@.pc), ..old(self)@ }),
    {
        self.pc = self.pc.wrapping_sub(2);
        proof {
            assert(self.pc == pc_minus_two(old(self)@.pc));
        }
    }

    /// The lowest-numbered key whose released flag is set, if any.
    #[verifier::loop_isolation(false)]
    fn first_released(&self) -> (r: Option<u8>)
        requires
            self@.wf(),
        ensures
            match r {
                Some(k) => k < KEY_COUNT && first_released_from(self@.released_keys, 0)
                    == Some(k as int),
                None => first_released_from(self@.released_keys, 0) is None,
            },
    {
        let mut k: usize = 0;
        while k < KEY_COUNT
            invariant
                k <= KEY_COUNT,
                first_released_from(self@.released_keys, 0) == first_released_from(
                    self@.released_keys,
                    k as int,
                ),
            decreases KEY_COUNT - k,
        {
            if self.released_keys[k] {
                return Some(k as u8);
            }
            k = k + 1;
        }
        None
    }

    /// The system family 0x0NNN: clear the display or return from a
    /// subroutine; any other address changes nothing.
    fn exec_system(&mut self, inst: u16) -> (r: Result<(), ExecError>)
        requires
            old(self)@.wf(),
        ensures
            final(self)@.wf(),
            agrees(system_spec(old(self)@, inst), r, old(self)@, final(self)@),
    {
        let nnn = take_nnn(inst);
        if nnn == 0x0e0 {
            self.clear_display();
            Ok(())
        } else if nnn == 0x0ee {
            match self.stack_pop() {
                Ok(addr) => {
                    self.pc = addr;
                    Ok(())
                },
                Err(e) => Err(e),
            }
        } else {
            Ok(())
        }
    }

    /// The register ALU family 0x8XYN; VF is always written last, so for
    /// X = F the flag overwrites the arithmetic result.
    fn exec_alu(&mut self, inst: u16)
        requires
            old(self)@.wf(),
        ensures
            final(self)@.wf(),
            final(self)@ == alu_spec(old(self)@, inst),
    {
        let x = take_x(inst) as usize;
        let y = take_y(inst) as usize;
        let vx = self.vreg[x];
        let vy = self.vreg[y];
        match take_n(inst) {
            0x0 => {
                self.vreg[x] = vy;
            },
            0x1 => {
                self.vreg[x] = vx | vy;
            },
            0x2 => {
                self.vreg[x] = vx & vy;
            },
            0x3 => {
                self.vreg[x] = vx ^ vy;
            },
            0x4 => {
                let sum = vx as u16 + vy as u16;
                self.vreg[x] = (sum % 0x100) as u8;
                self.vreg[VF_REG_FLAG] = if sum > 0xff {
                    1
                } else {
                    0
                };
            },
            0x5 => {
                let diff = (vx as u16 + 0x100 - vy as u16) % 0x100;
                self.vreg[x] = diff as u8;
                self.vreg[VF_REG_FLAG] = if vx < vy {
                    0
                } else {
                    1
                };
            },
            0x6 => {
                let src = if self.use_vy_when_shifting {
                    vy
                } else {
                    vx
                };
                self.vreg[x] = src / 2;
                self.vreg[VF_REG_FLAG] = src % 2;
            },
            0x7 => {
                let diff = (vy as u16 + 0x100 - vx as u16) % 0x100;
                self.vreg[x] = diff as u8;
                self.vreg[VF_REG_FLAG] = if vy < vx {
                    0
                } else {
                    1
                };
            },
            0xe => {
                let src = if self.use_vy_when_shifting {
                    vy
                } else {
                    vx
                };
                self.vreg[x] = ((src as u16 * 2) % 0x100) as u8;
                self.vreg[VF_REG_FLAG] = src / 0x80;
            },
            _ => {},
        }
    }

    /// The key-conditional family 0xEXNN: skip on key down / key up. A
    /// register value outside the 16 logical keys cannot be mapped and is
    /// fatal.
    fn exec_key_skip(&mut self, inst: u16) -> (r: Result<(), ExecError>)
        requires
            old(self)@.wf(),
        ensures
            final(self)@.wf(),
            agrees(key_skip_spec(old(self)@, inst), r, old(self)@, final(self)@),
    {
        let nn = take_nn(inst);
        if nn == 0x9e || nn == 0xa1 {
            let vx = self.vx(inst);
            if vx >= KEY_COUNT as u8 {
                return Err(ExecError::KeymapError);
            }
            let down = self.down_keys[vx as usize];
            let skip = if nn == 0x9e {
                down
            } else {
                !down
            };
            if skip {
                self.skip_inst();
            }
            Ok(())
        } else {
            Ok(())
        }
    }

    /// The timer and miscellaneous family 0xFXNN.
    fn exec_misc(&mut self, inst: u16) -> (r: Result<(), ExecError>)
        requires
            old(self)@.wf(),
        ensures
            final(self)@.wf(),
            agrees(misc_spec(old(self)@, inst), r, old(self)@, final(self)@),
    {
        let x = take_x(inst) as usize;
        let nn = take_nn(inst);
        match nn {
            // read the delay timer into VX
            0x07 => {
                self.vreg[x] = self.delay_timer;
                Ok(())
            },
            // set the delay timer from VX
            0x15 => {
                self.delay_timer = self.vreg[x];
                Ok(())
            },
            // set the sound timer from VX
            0x18 => {
                self.sound_timer = self.vreg[x];
                Ok(())
            },
            // add VX to the index register, wrapping; flag when the result
            // leaves the normal addressing range
            0x1e => {
                let vx = self.vreg[x];
                let sum = ((self.ireg as u32 + vx as u32) % 0x10000) as u16;
                self.ireg = sum;
                if sum > 0x0fff {
                    self.vreg[VF_REG_FLAG] = 1;
                }
                Ok(())
            },
            // blocking wait: consume one released-key flag, or rewind PC so
            // the same instruction re-executes next cycle
            0x0a => {
                match self.first_released() {
                    Some(code) => {
                        self.released_keys[code as usize] = false;
                        self.vreg[x] = code;
                    },
                    None => {
                        self.reverse_inst();
                    },
                }
                Ok(())
            },
            // point the index register at the font glyph for VX's low nibble
            0x29 => {
                let glyph = self.vreg[x] & 0x0f;
                proof {
                    let vxv = self.vreg@[x as int];
                    assert(vxv & 0x0f < 0x10) by (bit_vector);
                }
                self.ireg = (glyph as usize * FONT_CHAR_SIZE + FONT_LOAD_ADDR) as u16;
                Ok(())
            },
            // binary-coded decimal: VX's three digits at I, I+1, I+2
            0x33 => {
                let vx = self.vreg[x];
                let i = self.ireg as usize;
                if i + 2 < RAM_SIZE {
                    self.ram[i] = vx / 100;
                    self.ram[i + 1] = (vx / 10) % 10;
                    self.ram[i + 2] = vx % 10;
                    Ok(())
                } else {
                    Err(ExecError::RamError)
                }
            },
            // store registers V0..VX into RAM at I
            0x55 => {
                let i = self.ireg as usize;
                if i < RAM_SIZE - x {
                    let mut j: usize = 0;
                    while j <= x
                        invariant
                            old(self)@.wf(),
                            x < VREG_SIZE,
                            j <= x + 1,
                            i == old(self)@.ireg,
                            i + x < RAM_SIZE,
                            self.ram@.len() == RAM_SIZE,
                            self@ == (Chip8Model { ram: self.ram@, ..old(self)@ }),
                            forall|t: int| 0 <= t < j ==> self.ram@[i + t] == old(self)@.vreg[t],
                            forall|t: int|
                                0 <= t < RAM_SIZE && !(i <= t < i + j) ==> self.ram@[t] == old(
                                    self,
                                )@.ram[t],
                        decreases x + 1 - j,
                    {
                        self.ram[i + j] = self.vreg[j];
                        j = j + 1;
                    }
                    if self.increment_ireg_on_reg_to_mem {
                        self.ireg = (i + x + 1) as u16;
                    }
                    proof {
                        let xi = spec_x(inst) as int;
                        let ii = old(self)@.ireg as int;
                        assert(self.ram@ =~= Seq::new(
                            old(self)@.ram.len(),
                            |t: int| if ii <= t <= ii + xi {
                                old(self)@.vreg[t - ii]
                            } else {
                                old(self)@.ram[t]
                            },
                        ));
                    }
                    Ok(())
                } else {
                    Err(ExecError::RamError)
                }
            },
            // load registers V0..VX from RAM at I
            0x65 => {
                let i = self.ireg as usize;
                if i < RAM_SIZE - x {
                    let mut j: usize = 0;
                    while j <= x
                        invariant
                            old(self)@.wf(),
                            x < VREG_SIZE,
                            j <= x + 1,
                            i == old(self)@.ireg,
                            i + x < RAM_SIZE,
                            self.vreg@.len() == VREG_SIZE,
                            self@ == (Chip8Model { vreg: self.vreg@, ..old(self)@ }),
                            forall|t: int| 0 <= t < j ==> self.vreg@[t] == old(self)@.ram[i + t],
                            forall|t: int|
                                j <= t < VREG_SIZE ==> self.vreg@[t] == old(self)@.vreg[t],
                        decreases x + 1 - j,
                    {
                        self.vreg[j] = self.ram[i + j];
                        j = j + 1;
                    }
                    if self.increment_ireg_on_reg_to_mem {
                        self.ireg = (i + x + 1) as u16;
                    }
                    proof {
                        let xi = spec_x(inst) as int;
                        let ii = old(self)@.ireg as int;
                        assert(self.vreg@ =~= Seq::new(
                            old(self)@.vreg.len(),
                            |t: int| if 0 <= t <= xi {
                                old(self)@.ram[ii + t]
                            } else {
                                old(self)@.vreg[t]
                            },
                        ));
                    }
                    Ok(())
                } else {
                    Err(ExecError::RamError)
                }
            },
            _ => Ok(()),
        }
    }

    /// Execute one decoded instruction word; `rnd` is the byte the
    /// randomness source supplied for this cycle, which only the 0xCXNN
    /// instruction reads.
    pub fn execute(&mut self, inst: u16, rnd: u8) -> (r: Result<(), ExecError>)
        requires
            old(self)@.wf(),
        ensures
            final(self)@.wf(),
            agrees(step_spec(old(self)@, inst, rnd), r, old(self)@, final(self)@),
    {
        match take_op(inst) {
            // system: clear screen, return from subroutine
            0x0 => self.exec_system(inst),
            // jump
            0x1 => {
                self.pc = take_nnn(inst);
                Ok(())
            },
            // subroutine call
            0x2 => {
                let pc = self.pc;
                match self.stack_push(pc) {
                    Ok(_) => {
                        self.pc = take_nnn(inst);
                        Ok(())
                    },
                    Err(e) => Err(e),
                }
            },
            // conditional skip when VX equals NN
            0x3 => {
                if self.vx(inst) == take_nn(inst) {
                    self.skip_inst();
                }
                Ok(())
            },
            // conditional skip when VX differs from NN
            0x4 => {
                if self.vx(inst) != take_nn(inst) {
                    self.skip_inst();
                }
                Ok(())
            },
            // conditional skip when VX equals VY
            0x5 => {
                if take_n(inst) == 0 && self.vx(inst) == self.vy(inst) {
                    self.skip_inst();
                }
                Ok(())
            },
            // set VX to NN
            0x6 => {
                let xi = take_x(inst) as usize;
                self.vreg[xi] = take_nn(inst);
                Ok(())
            },
            // add NN to VX, wrapping, no flag
            0x7 => {
                let xi = take_x(inst) as usize;
                let sum = self.vreg[xi] as u16 + take_nn(inst) as u16;
                self.vreg[xi] = (sum % 0x100) as u8;
                Ok(())
            },
            // register ALU
            0x8 => {
                self.exec_alu(inst);
                Ok(())
            },
            // conditional skip when VX differs from VY
            0x9 => {
                if take_n(inst) == 0 && self.vx(inst) != self.vy(inst) {
                    self.skip_inst();
                }
                Ok(())
            },
            // set the index register
            0xa => {
                self.ireg = take_nnn(inst);
                Ok(())
            },
            // jump with offset
            0xb => {
                let offset = if self.jump_with_offset {
                    self.vx(inst)
                } else {
                    self.vreg[0]
                };
                self.pc = ((take_nnn(inst) as u32 + offset as u32) % 0x10000) as u16;
                Ok(())
            },
            // random byte masked with NN
            0xc => {
                let xi = take_x(inst) as usize;
                self.vreg[xi] = rnd & take_nn(inst);
                Ok(())
            },
            // draw
            0xd => {
                let vx = self.vx(inst);
                let vy = self.vy(inst);
                self.draw_sprite(vx, vy, take_n(inst))
            },
            // skip on key state
            0xe => self.exec_key_skip(inst),
            // timers and miscellaneous
            _ => self.exec_misc(inst),
        }
    }

    /// Decode and execute one instruction word. Only the 0xCXNN instruction
    /// consults the process-wide randomness source; every other instruction
    /// is deterministic in the machine state.
    pub fn decode_and_execute(&mut self, inst: u16) -> (r: Result<(), ExecError>)
        requires
            old(self)@.wf(),
        ensures
            final(self)@.wf(),
            exists|b: u8| agrees(step_spec(old(self)@, inst, b), r, old(self)@, final(self)@),
            spec_op(inst) != 0xc ==> agrees(
                step_spec(old(self)@, inst, 0),
                r,
                old(self)@,
                final(self)@,
            ),
    {
        let rnd: u8 = if take_op(inst) == 0xc {
            random_byte()
        } else {
            0
        };
        let r = self.execute(inst, rnd);
        proof {
            assert(agrees(step_spec(old(self)@, inst, rnd), r, old(self)@, self@));
        }
        r
    }

    /// One whole interpreter cycle: fetch the instruction at PC, advance PC
    /// past it, and execute it.
    pub fn cycle(&mut self) -> (r: Result<(), ExecError>)
        requires
            old(self)@.wf(),
        ensures
            final(self)@.wf(),
            exists|b: u8| cycle_agrees(old(self)@, b, r, final(self)@),
            r is Ok ==> exists|b: u8|
                cycle_spec(old(self)@, b) == Ok::<Chip8Model, ExecError>(final(self)@),
    {
        match self.fetch() {
            Ok(inst) => {
                let ghost mid = self@;
                let r = self.decode_and_execute(inst);
                proof {
                    let b = choose|b: u8| agrees(step_spec(mid, inst, b), r, mid, self@);
                    assert(cycle_agrees(old(self)@, b, r, self@));
                    if r is Ok {
                        assert(cycle_spec(old(self)@, b) == Ok::<Chip8Model, ExecError>(self@));
                    }
                }
                r
            },
            Err(e) => {
                proof {
                    assert(cycle_agrees(old(self)@, 0u8, Err::<(), ExecError>(e), self@));
                }
                Err(e)
            },
        }
    }
}

/// Relies on rand::random: a byte drawn from the thread-local random number
/// generator. Nothing is promised of its value; callers state what holds of
/// every outcome.
#[verifier::external_body]
fn random_byte() -> u8 {
    rand::random::<u8>()
}

} // verus!
