//! General properties of the interpreter, stated over the machine model and
//! proved once for all inputs.

use vstd::prelude::*;
use crate::device::{KEY_COUNT, PIXEL_OFF, PIXEL_ON, PIXEL_PRE_OFF, STACK_SIZE};
use crate::model::{
    cleared_display, decremented, first_released_from, pc_minus_two, step_spec, Chip8Model,
    VF_REG_FLAG,
};
use crate::util::{spec_n, spec_nn, spec_nnn, spec_op, spec_x, spec_y, ExecError};

verus! {

/// Decoding is a pure function of the instruction bits, and each field is
/// exactly the documented nibble or byte of the word: the opcode family is
/// the top nibble, X and Y the second and third nibbles, N the low nibble,
/// NN the low byte, NNN the low 12 bits.
pub proof fn lemma_decode_fields(inst: u16)
    ensures
        spec_op(inst) == inst / 0x1000,
        spec_x(inst) == (inst / 0x100) % 0x10,
        spec_y(inst) == (inst / 0x10) % 0x10,
        spec_n(inst) == inst % 0x10,
        spec_nn(inst) == inst % 0x100,
        spec_nnn(inst) == inst % 0x1000,
{
    assert(((inst & 0xf000u16) >> 12) as u8 == inst / 0x1000) by (bit_vector);
    assert(((inst & 0x0f00u16) >> 8) as u8 == (inst / 0x100) % 0x10) by (bit_vector);
    assert(((inst & 0x00f0u16) >> 4) as u8 == (inst / 0x10) % 0x10) by (bit_vector);
    assert((inst & 0x000fu16) as u8 == inst % 0x10) by (bit_vector);
    assert((inst & 0x00ffu16) as u8 == inst % 0x100) by (bit_vector);
    assert((inst & 0x0fffu16) == inst % 0x1000) by (bit_vector);
}

/// Every instruction but the random one 0xCXNN is deterministic in the
/// machine state: the modelled step does not depend on the random byte.
pub proof fn lemma_step_ignores_randomness(m: Chip8Model, inst: u16, b1: u8, b2: u8)
    requires
        spec_op(inst) != 0xc,
    ensures
        step_spec(m, inst, b1) == step_spec(m, inst, b2),
{
}

/// Setting VX with 6XNN, storing it into the delay timer with FX15, then
/// reading the timer back into VX with FX07 round-trips: VX holds the value
/// that was set, whatever the machine held before.
pub proof fn lemma_set_then_read_back(m: Chip8Model, x: u8, nn: u8, b1: u8, b2: u8, b3: u8)
    requires
        m.wf(),
        x < 0x10,
    ensures
        ({
            let set_inst = (0x6000 + x * 0x100 + nn) as u16;
            let store_inst = (0xf015 + x * 0x100) as u16;
            let read_inst = (0xf007 + x * 0x100) as u16;
            &&& step_spec(m, set_inst, b1) matches Ok(m1)
            &&& step_spec(m1, store_inst, b2) matches Ok(m2)
            &&& step_spec(m2, read_inst, b3) matches Ok(m3)
            &&& m3.vreg[x as int] == nn
        }),
{
    let set_inst = (0x6000 + x * 0x100 + nn) as u16;
    let store_inst = (0xf015 + x * 0x100) as u16;
    let read_inst = (0xf007 + x * 0x100) as u16;
    assert(spec_op(set_inst) == 6 && spec_x(set_inst) == x && spec_nn(set_inst) == nn)
        by (bit_vector)
        requires
            set_inst == (0x6000 + x * 0x100 + nn) as u16,
            x < 0x10,
    ;
    assert(spec_op(store_inst) == 0xf && spec_x(store_inst) == x && spec_nn(store_inst) == 0x15)
        by (bit_vector)
        requires
            store_inst == (0xf015 + x * 0x100) as u16,
            x < 0x10,
    ;
    assert(spec_op(read_inst) == 0xf && spec_x(read_inst) == x && spec_nn(read_inst) == 0x07)
        by (bit_vector)
        requires
            read_inst == (0xf007 + x * 0x100) as u16,
            x < 0x10,
    ;
}

/// The add-with-carry opcode 8XY4 sets its outputs deterministically: VX
/// becomes the wrapped sum, and VF — written last — becomes 1 exactly when
/// the sum overflowed a byte.
pub proof fn lemma_add_sets_carry(m: Chip8Model, x: u8, y: u8, b: u8)
    requires
        m.wf(),
        x < 0x10,
        y < 0x10,
    ensures
        ({
            let inst = (0x8004 + x * 0x100 + y * 0x10) as u16;
            let vx = m.vreg[x as int];
            let vy = m.vreg[y as int];
            &&& step_spec(m, inst, b) matches Ok(m1)
            &&& m1.vreg[VF_REG_FLAG as int] == (if vx + vy > 0xff {
                1u8
            } else {
                0u8
            })
            &&& x != VF_REG_FLAG ==> m1.vreg[x as int] == (vx + vy) % 0x100
        }),
{
    let inst = (0x8004 + x * 0x100 + y * 0x10) as u16;
    assert(spec_op(inst) == 8 && spec_x(inst) == x && spec_y(inst) == y && spec_n(inst) == 4)
        by (bit_vector)
        requires
            inst == (0x8004 + x * 0x100 + y * 0x10) as u16,
            x < 0x10,
            y < 0x10,
    ;
}

/// The subtract opcode 8XY5 sets its outputs deterministically: VX becomes
/// the wrapped difference, and VF — written last — becomes 0 exactly when
/// the subtraction borrowed.
pub proof fn lemma_sub_sets_borrow(m: Chip8Model, x: u8, y: u8, b: u8)
    requires
        m.wf(),
        x < 0x10,
        y < 0x10,
    ensures
        ({
            let inst = (0x8005 + x * 0x100 + y * 0x10) as u16;
            let vx = m.vreg[x as int];
            let vy = m.vreg[y as int];
            &&& step_spec(m, inst, b) matches Ok(m1)
            &&& m1.vreg[VF_REG_FLAG as int] == (if vx < vy {
                0u8
            } else {
                1u8
            })
            &&& x != VF_REG_FLAG ==> m1.vreg[x as int] == (vx - vy + 0x100) % 0x100
        }),
{
    let inst = (0x8005 + x * 0x100 + y * 0x10) as u16;
    assert(spec_op(inst) == 8 && spec_x(inst) == x && spec_y(inst) == y && spec_n(inst) == 5)
        by (bit_vector)
        requires
            inst == (0x8005 + x * 0x100 + y * 0x10) as u16,
            x < 0x10,
            y < 0x10,
    ;
}

/// A subroutine call pushes the return address and a return pops it back:
/// after 2NNN then 00EE the program counter and the stack pointer are
/// restored exactly, whatever else the machine held.
pub proof fn lemma_call_return_roundtrip(m: Chip8Model, nnn: u16, b1: u8, b2: u8)
    requires
        m.wf(),
        m.sp < STACK_SIZE - 1,
        nnn < 0x1000,
    ensures
        ({
            let call = (0x2000 + nnn) as u16;
            &&& step_spec(m, call, b1) matches Ok(m1)
            &&& m1.pc == nnn
            &&& m1.sp == m.sp + 1
            &&& step_spec(m1, 0x00ee, b2) matches Ok(m2)
            &&& m2.pc == m.pc
            &&& m2.sp == m.sp
        }),
{
    let call = (0x2000 + nnn) as u16;
    assert(spec_op(call) == 2 && spec_nnn(call) == nnn) by (bit_vector)
        requires
            call == (0x2000 + nnn) as u16,
            nnn < 0x1000,
    ;
    assert(spec_op(0x00eeu16) == 0 && spec_nnn(0x00eeu16) == 0x0ee) by (bit_vector);
}

/// The stack is bounded on both sides: a call with the stack full overflows,
/// and a return with the stack empty underflows; both are fatal.
pub proof fn lemma_stack_bounds_fatal(m: Chip8Model, nnn: u16, b: u8)
    requires
        m.wf(),
        nnn < 0x1000,
    ensures
        m.sp == STACK_SIZE - 1 ==> step_spec(m, (0x2000 + nnn) as u16, b) == Err::<
            Chip8Model,
            ExecError,
        >(ExecError::StackOverflow),
        m.sp == -1 ==> step_spec(m, 0x00ee, b) == Err::<Chip8Model, ExecError>(
            ExecError::StackUnderflow,
        ),
{
    let call = (0x2000 + nnn) as u16;
    assert(spec_op(call) == 2 && spec_nnn(call) == nnn) by (bit_vector)
        requires
            call == (0x2000 + nnn) as u16,
            nnn < 0x1000,
    ;
    assert(spec_op(0x00eeu16) == 0 && spec_nnn(0x00eeu16) == 0x0ee) by (bit_vector);
}

/// A clear never sends a fully-on pixel straight to fully off: it parks it
/// at the intermediate "just turned off" value, from which the renderer
/// fades it out.
pub proof fn lemma_clear_keeps_on_pixels_visible(d: Seq<u8>, i: int)
    requires
        0 <= i < d.len(),
        d[i] == PIXEL_ON,
    ensures
        cleared_display(d)[i] == PIXEL_PRE_OFF,
        cleared_display(d)[i] != PIXEL_OFF,
{
}

/// With no released-key flag set there is no key to consume.
proof fn lemma_no_release_found(released: Seq<bool>, i: int)
    requires
        forall|k: int| i <= k < KEY_COUNT ==> !released[k],
    ensures
        first_released_from(released, i) is None,
    decreases KEY_COUNT - i,
{
    if i < KEY_COUNT {
        lemma_no_release_found(released, i + 1);
    }
}

/// A found released key has its flag set and lies among the 16 keys.
proof fn lemma_found_release_is_set(released: Seq<bool>, i: int, k: int)
    requires
        first_released_from(released, i) == Some(k),
    ensures
        i <= k < KEY_COUNT,
        released[k],
    decreases KEY_COUNT - i,
{
    if i < KEY_COUNT && !released[i] {
        lemma_found_release_is_set(released, i + 1, k);
    }
}

/// The blocking key-wait FX0A: with no released flag set it rewinds PC by
/// the two bytes fetch advanced — so the same instruction re-executes and in
/// effect PC is unchanged — and touches nothing else. With a flag set it
/// consumes exactly that one flag, stores the key's code in VX, and leaves
/// PC advancing normally.
pub proof fn lemma_key_wait(m: Chip8Model, x: u8, b: u8)
    requires
        m.wf(),
        x < 0x10,
    ensures
        ({
            let inst = (0xf00a + x * 0x100) as u16;
            &&& (forall|k: int| 0 <= k < KEY_COUNT ==> !m.released_keys[k]) ==> step_spec(
                m,
                inst,
                b,
            ) == Ok::<Chip8Model, ExecError>(
                (Chip8Model { pc: pc_minus_two(m.pc), ..m }),
            )
            &&& (first_released_from(m.released_keys, 0) matches Some(k) ==> step_spec(
                m,
                inst,
                b,
            ) == Ok::<Chip8Model, ExecError>(
                (Chip8Model {
                    released_keys: m.released_keys.update(k, false),
                    vreg: m.vreg.update(x as int, k as u8),
                    ..m
                }),
            ))
        }),
{
    let inst = (0xf00a + x * 0x100) as u16;
    assert(spec_op(inst) == 0xf && spec_x(inst) == x && spec_nn(inst) == 0x0a) by (bit_vector)
        requires
            inst == (0xf00a + x * 0x100) as u16,
            x < 0x10,
    ;
    if forall|k: int| 0 <= k < KEY_COUNT ==> !m.released_keys[k] {
        lemma_no_release_found(m.released_keys, 0);
    }
}

/// Timer decrement never goes below zero: a zero counter stays at zero, so
/// repeated decrements leave it there; a non-zero counter counts down by one.
pub proof fn lemma_timer_never_below_zero(t: u8)
    ensures
        decremented(0) == 0,
        decremented(decremented(t)) <= decremented(t),
        t > 0 ==> decremented(t) == t - 1,
{
}

} // verus!
