//! Properties of the machine model that hold across several operations or
//! steps, proved from the model's definitions.

use vstd::prelude::*;
use crate::decode::{Op, decode_spec};
use crate::model::{
    DISPLAY_SIZE, FETCH_LIMIT, FLAG_REGISTER, MEMORY_SIZE, Machine, STACK_SIZE, TIMER_PERIOD_NS,
    execute, sprite_covers, step,
};

verus! {

/// Drawing the same sprite twice at the same place gives back the display as
/// it was, and the second draw reports a collision exactly when the first
/// draw lit some cell. The coordinates must not be read from the flag
/// register, which the first draw overwrites.
pub proof fn lemma_draw_twice_restores(m: Machine, x: u8, y: u8, n: u8, r1: u8, r2: u8)
    requires
        m.wf(),
        x < FLAG_REGISTER,
        y < FLAG_REGISTER,
        n < 16,
        m.index + n <= MEMORY_SIZE,
    ensures
        ({
            let op = Op::Draw { x, y, n };
            let once = execute(m, op, r1);
            let twice = execute(once, op, r2);
            &&& twice.display == m.display
            &&& twice.reg(FLAG_REGISTER) == 1 <==> exists|c: int|
                0 <= c < DISPLAY_SIZE && !m.display[c] && #[trigger] once.display[c]
            &&& twice.reg(FLAG_REGISTER) == 0 || twice.reg(FLAG_REGISTER) == 1
        }),
{
    let op = Op::Draw { x, y, n };
    let once = execute(m, op, r1);
    let twice = execute(once, op, r2);
    let (vx, vy) = (m.reg(x), m.reg(y));
    assert(once.reg(x) == vx && once.reg(y) == vy);
    assert(once.memory == m.memory && once.index == m.index);
    assert(twice.display =~= m.display);
    let lit = exists|c: int| 0 <= c < DISPLAY_SIZE && !m.display[c] && #[trigger] once.display[c];
    if lit {
        let c = choose|c: int| 0 <= c < DISPLAY_SIZE && !m.display[c] && #[trigger] once.display[c];
        assert(once.display[c] && sprite_covers(once.memory, once.index, vx, vy, n, c));
    }
    if exists|c: int|
        0 <= c < DISPLAY_SIZE && once.display[c] && #[trigger] sprite_covers(
            once.memory,
            once.index,
            vx,
            vy,
            n,
            c,
        ) {
        let c = choose|c: int|
            0 <= c < DISPLAY_SIZE && once.display[c] && #[trigger] sprite_covers(
                once.memory,
                once.index,
                vx,
                vy,
                n,
                c,
            );
        assert(!m.display[c] && once.display[c]);
    }
}

/// A call followed at once by a return resumes at the instruction after the
/// call, with the stack as deep as before. The return must be reached: the
/// call's target must lie in the loaded program and hold a return.
pub proof fn lemma_call_then_return(m: Machine, t1: u64, r1: u8, t2: u64, r2: u8)
    requires
        m.wf(),
        m.running,
        m.key_wait is None,
        m.program_counter < FETCH_LIMIT,
        decode_spec(m.fetch()) matches Some(Op::Call { .. }),
        m.stack_pointer < STACK_SIZE,
        step(m, t1, r1) matches Ok(m1) && m1.running && m1.fetch() == 0x00EE,
    ensures
        step(m, t1, r1) matches Ok(m1) && step(m1, t2, r2) matches Ok(m2)
            && m2.program_counter == m.program_counter + 2 && m2.stack_pointer
            == m.stack_pointer,
{
    assert(0x00EEu16 >> 12u16 == 0u16) by (bit_vector);
}

/// While the machine waits for a key and none is reported, a step taken more
/// than a timer period after the last count-down lowers each non-zero timer
/// by exactly one, leaves a zero timer at zero, and changes nothing else but
/// the time of the last count-down.
pub proof fn lemma_waiting_timers_count_down(m: Machine, now: u64, random: u8)
    requires
        m.wf(),
        m.running,
        m.program_counter < FETCH_LIMIT,
        m.key_wait is Some,
        m.key_pressed is None,
        now >= m.clock,
        now - m.clock > TIMER_PERIOD_NS,
        m.program_counter < 0x200 + m.rom_size,
    ensures
        step(m, now, random) == Ok::<Machine, crate::error::ChipError>(
            Machine {
                clock: now,
                delay_timer: if m.delay_timer > 0 { (m.delay_timer - 1) as u8 } else { 0 },
                sound_timer: if m.sound_timer > 0 { (m.sound_timer - 1) as u8 } else { 0 },
                ..m
            },
        ),
{
}

/// Clearing the screen turns every display cell off.
pub proof fn lemma_clear_screen_blanks(m: Machine, now: u64, random: u8)
    requires
        m.wf(),
        m.running,
        m.key_wait is None,
        m.program_counter < FETCH_LIMIT,
        m.fetch() == 0x00E0,
    ensures
        step(m, now, random) matches Ok(m1) && m1.display.len() == DISPLAY_SIZE && forall|c: int|
            0 <= c < DISPLAY_SIZE ==> !#[trigger] m1.display[c],
{
    assert(0x00E0u16 >> 12u16 == 0u16) by (bit_vector);
}

} // verus!
