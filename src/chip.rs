//! The interpreter: machine state and the fetch-decode-execute cycle.

use vstd::prelude::*;
use crate::arith::{add_carry, shift_left, shift_right, sub_borrow};
use crate::decode::{Op, decode};
use crate::error::ChipError;
use crate::model::{
    DISPLAY_H, DISPLAY_SIZE, DISPLAY_W, FETCH_LIMIT, FLAG_REGISTER, FONT_SIZE, KEYPAD_SIZE,
    MAX_ROM_SIZE, MEMORY_SIZE, Machine, NUM_REGISTERS, PROGRAM_BASE, STACK_SIZE, TIMER_PERIOD_NS,
    draw_collides, drawn_display, execute, fault, font_glyphs, halt_check, loaded_state,
    pixel_bit, reset_state, resolve_key, row_collides, row_covers, sprite_covers, step, tick,
    written_row,
};

verus! {

/// A CHIP-8 machine. Its fields are private; `self@` is its state as a
/// [`Machine`] value, and each method states its effect on that value.
pub struct Chip {
    memory: [u8; MEMORY_SIZE],
    registers: [u8; NUM_REGISTERS],
    stack: [u16; STACK_SIZE],
    stack_pointer: usize,
    program_counter: u16,
    index: u16,
    display: [bool; DISPLAY_SIZE],
    clock: u64,
    delay_timer: u8,
    sound_timer: u8,
    keypad: [bool; KEYPAD_SIZE],
    key_pressed: Option<u8>,
    key_wait: Option<u8>,
    running: bool,
    rom_size: usize,
}

impl View for Chip {
    type V = Machine;

    closed spec fn view(&self) -> Machine {
        Machine {
            memory: self.memory@,
            registers: self.registers@,
            stack: self.stack@,
            stack_pointer: self.stack_pointer as nat,
            program_counter: self.program_counter,
            index: self.index,
            display: self.display@,
            clock: self.clock,
            delay_timer: self.delay_timer,
            sound_timer: self.sound_timer,
            keypad: self.keypad@,
            key_pressed: self.key_pressed,
            key_wait: self.key_wait,
            running: self.running,
            rom_size: self.rom_size as nat,
        }
    }
}

/// The built-in font as bytes.
fn font_set() -> (r: Vec<u8>)
    ensures
        r@ == font_glyphs(),
{
    vec![
        0xF0, 0x90, 0x90, 0x90, 0xF0, 0x20, 0x60, 0x20, 0x20, 0x70,
        0xF0, 0x10, 0xF0, 0x80, 0xF0, 0xF0, 0x10, 0xF0, 0x10, 0xF0,
        0x90, 0x90, 0xF0, 0x10, 0x10, 0xF0, 0x80, 0xF0, 0x10, 0xF0,
        0xF0, 0x80, 0xF0, 0x90, 0xF0, 0xF0, 0x10, 0x20, 0x40, 0x40,
        0xF0, 0x90, 0xF0, 0x90, 0xF0, 0xF0, 0x90, 0xF0, 0x10, 0xF0,
        0xF0, 0x90, 0xF0, 0x90, 0x90, 0xE0, 0x90, 0xE0, 0x90, 0xE0,
        0xF0, 0x80, 0x80, 0x80, 0xF0, 0xE0, 0x90, 0x90, 0x90, 0xE0,
        0xF0, 0x80, 0xF0, 0x80, 0xF0, 0xF0, 0x80, 0xF0, 0x80, 0x80,
    ]
}

impl Chip {
    #[verifier::type_invariant]
    spec fn inv(&self) -> bool {
        &&& self.stack_pointer <= STACK_SIZE
        &&& self.rom_size <= MAX_ROM_SIZE
        &&& (self.key_wait matches Some(x) ==> x < NUM_REGISTERS)
    }

    proof fn lemma_view_wf(&self)
        requires
            self.inv(),
        ensures
            self@.wf(),
    {
    }

    /// A machine reset at the current time.
    pub fn new() -> (r: Chip)
        ensures
            r@ == reset_state(r@.clock),
            r@.wf(),
    {
        let now = time::precise_time_ns();
        Chip::new_at(now)
    }

    /// A machine reset at time `now`.
    pub fn new_at(now: u64) -> (r: Chip)
        ensures
            r@ == reset_state(now),
            r@.wf(),
    {
        let mut c = Chip {
            memory: [0; MEMORY_SIZE],
            registers: [0; NUM_REGISTERS],
            stack: [0; STACK_SIZE],
            stack_pointer: 0,
            program_counter: PROGRAM_BASE,
            index: 0,
            display: [false; DISPLAY_SIZE],
            clock: now,
            delay_timer: 0,
            sound_timer: 0,
            keypad: [false; KEYPAD_SIZE],
            key_pressed: None,
            key_wait: None,
            running: true,
            rom_size: 0,
        };
        c.reset_at(now);
        c
    }

    /// Resets the machine at the current time.
    pub fn reset(&mut self)
        ensures
            final(self)@ == reset_state(final(self)@.clock),
            final(self)@.wf(),
    {
        let now = time::precise_time_ns();
        self.reset_at(now);
    }

    /// Resets the machine at time `now`: memory holds only the font, all
    /// else is zero, execution starts at the program base.
    pub fn reset_at(&mut self, now: u64)
        ensures
            final(self)@ == reset_state(now),
            final(self)@.wf(),
    {
        proof {
            use_type_invariant(&*self);
        }
        self.memory = [0; MEMORY_SIZE];
        let font = font_set();
        let mut i: usize = 0;
        while i < FONT_SIZE
            invariant
                0 <= i <= FONT_SIZE,
                self.inv(),
                font@ == font_glyphs(),
                self.memory@ == Seq::new(
                    MEMORY_SIZE as nat,
                    |a: int|
                        if a < i {
                            font_glyphs()[a]
                        } else {
                            0u8
                        },
                ),
            decreases FONT_SIZE - i,
        {
            self.memory[i] = font[i];
            i = i + 1;
        }
        self.registers = [0; NUM_REGISTERS];
        self.stack = [0; STACK_SIZE];
        self.stack_pointer = 0;
        self.program_counter = PROGRAM_BASE;
        self.index = 0;
        self.display = [false; DISPLAY_SIZE];
        self.clock = now;
        self.delay_timer = 0;
        self.sound_timer = 0;
        self.keypad = [false; KEYPAD_SIZE];
        self.key_pressed = None;
        self.key_wait = None;
        self.running = true;
        self.rom_size = 0;
        assert(self@ =~= reset_state(now));
        proof {
            self.lemma_view_wf();
        }
    }

    /// Loads a program at the current time; see [`Chip::load_rom_at`].
    pub fn load_rom(&mut self, rom: &[u8]) -> (r: Result<(), ChipError>)
        ensures
            rom@.len() <= MAX_ROM_SIZE ==> r is Ok && final(self)@ == loaded_state(
                rom@,
                final(self)@.clock,
            ),
            rom@.len() > MAX_ROM_SIZE ==> r == Err::<(), ChipError>(
                ChipError::RomTooLarge { len: rom@.len() as usize },
            ) && final(self)@ == old(self)@,
            final(self)@.wf(),
    {
        let now = time::precise_time_ns();
        self.load_rom_at(rom, now)
    }

    /// Resets the machine at time `now` and copies `rom` to the program base;
    /// a program too large for the memory above the base is refused and the
    /// machine left as it was.
    pub fn load_rom_at(&mut self, rom: &[u8], now: u64) -> (r: Result<(), ChipError>)
        ensures
            rom@.len() <= MAX_ROM_SIZE ==> r is Ok && final(self)@ == loaded_state(rom@, now),
            rom@.len() > MAX_ROM_SIZE ==> r == Err::<(), ChipError>(
                ChipError::RomTooLarge { len: rom@.len() as usize },
            ) && final(self)@ == old(self)@,
            final(self)@.wf(),
    {
        proof {
            use_type_invariant(&*self);
            self.lemma_view_wf();
        }
        if rom.len() > MAX_ROM_SIZE {
            return Err(ChipError::RomTooLarge { len: rom.len() });
        }
        self.reset_at(now);
        let ghost base = self@;
        let mut i: usize = 0;
        while i < rom.len()
            invariant
                0 <= i <= rom@.len() <= MAX_ROM_SIZE,
                self.inv(),
                base == reset_state(now),
                self@ == (Machine {
                    memory: Seq::new(
                        MEMORY_SIZE as nat,
                        |a: int|
                            if PROGRAM_BASE <= a < PROGRAM_BASE + i {
                                rom@[a - PROGRAM_BASE]
                            } else {
                                base.memory[a]
                            },
                    ),
                    ..base
                }),
            decreases rom@.len() - i,
        {
            self.memory[PROGRAM_BASE as usize + i] = rom[i];
            i = i + 1;
            assert(self.memory@ =~= Seq::new(
                MEMORY_SIZE as nat,
                |a: int|
                    if PROGRAM_BASE <= a < PROGRAM_BASE + i {
                        rom@[a - PROGRAM_BASE]
                    } else {
                        base.memory[a]
                    },
            ));
        }
        self.rom_size = rom.len();
        assert(self@ =~= loaded_state(rom@, now));
        proof {
            self.lemma_view_wf();
        }
        Ok(())
    }
}

// Steps of the cycle, and the operations one by one.
impl Chip {
    /// Counts the timers down if a timer period has passed since `clock`.
    fn tick_timers(&mut self, now: u64)
        ensures
            final(self)@ == tick(old(self)@, now),
    {
        proof {
            use_type_invariant(&*self);
        }
        if now >= self.clock && now - self.clock > TIMER_PERIOD_NS {
            self.clock = now;
            if self.delay_timer > 0 {
                self.delay_timer = self.delay_timer - 1;
            }
            if self.sound_timer > 0 {
                self.sound_timer = self.sound_timer - 1;
            }
        }
    }

    /// Stops the machine if the program counter has left the program.
    fn check_halt(&mut self)
        ensures
            final(self)@ == halt_check(old(self)@),
    {
        proof {
            use_type_invariant(&*self);
        }
        if self.program_counter >= FETCH_LIMIT || self.program_counter as usize >= PROGRAM_BASE
            as usize + self.rom_size {
            self.running = false;
        }
    }

    /// The word at the program counter.
    fn fetch(&self) -> (w: u16)
        requires
            self@.program_counter < FETCH_LIMIT,
        ensures
            w == self@.fetch(),
    {
        let pc = self.program_counter as usize;
        self.memory[pc] as u16 * 256 + self.memory[pc + 1] as u16
    }

    /// The fault that `op` would raise now, if any.
    fn check_fault(&self, op: Op) -> (r: Option<ChipError>)
        ensures
            r == fault(self@, op),
    {
        let pc = self.program_counter;
        let index = self.index as usize;
        let out_of_range = Some(ChipError::MemoryOutOfRange { pc, index: self.index });
        match op {
            Op::Call { .. } => if self.stack_pointer >= STACK_SIZE {
                Some(ChipError::StackOverflow { pc })
            } else {
                None
            },
            Op::Return => if self.stack_pointer == 0 {
                Some(ChipError::StackUnderflow { pc })
            } else {
                None
            },
            Op::Draw { n, .. } => if index + n as usize > MEMORY_SIZE {
                out_of_range
            } else {
                None
            },
            Op::Bcd { .. } => if index + 3 > MEMORY_SIZE {
                out_of_range
            } else {
                None
            },
            Op::StoreRegs { x } | Op::LoadRegs { x } => if index + x as usize + 1 > MEMORY_SIZE {
                out_of_range
            } else {
                None
            },
            _ => None,
        }
    }

    /// The value of register `x`.
    pub fn load(&self, x: u8) -> (v: u8)
        requires
            x < NUM_REGISTERS,
        ensures
            v == self@.reg(x),
    {
        self.registers[x as usize]
    }

    /// Sets register `x` to `v`.
    pub fn store(&mut self, x: u8, v: u8)
        requires
            x < NUM_REGISTERS,
        ensures
            final(self)@ == old(self)@.with_reg(x, v),
    {
        proof {
            use_type_invariant(&*self);
        }
        self.registers[x as usize] = v;
    }

    /// Sets the flag register `VF` to `v`.
    pub fn set_flag(&mut self, v: u8)
        ensures
            final(self)@ == old(self)@.with_reg(FLAG_REGISTER, v),
    {
        self.store(FLAG_REGISTER, v);
    }

    /// Moves past the current instruction, and past the next one when `skip`.
    fn advance(&mut self, skip: bool)
        requires
            old(self)@.program_counter < FETCH_LIMIT,
        ensures
            final(self)@ == old(self)@.advance(skip),
    {
        proof {
            use_type_invariant(&*self);
        }
        if skip {
            self.program_counter = self.program_counter + 4;
        } else {
            self.program_counter = self.program_counter + 2;
        }
    }

    /// Ends a key wait if a key has been reported.
    fn resolve_key_wait(&mut self)
        requires
            old(self)@.program_counter < FETCH_LIMIT,
        ensures
            final(self)@ == resolve_key(old(self)@),
    {
        proof {
            use_type_invariant(&*self);
        }
        if let Some(x) = self.key_wait {
            if let Some(k) = self.key_pressed {
                self.store(x, k);
                self.key_wait = None;
                self.key_pressed = None;
                self.advance(false);
            }
        }
    }

    /// `00E0`: turns every display cell off.
    pub fn op_clearsrc(&mut self)
        requires
            old(self)@.program_counter < FETCH_LIMIT,
        ensures
            final(self)@ == (Machine {
                display: Seq::new(DISPLAY_SIZE as nat, |c: int| false),
                ..old(self)@
            }).advance(false),
    {
        proof {
            use_type_invariant(&*self);
        }
        self.display = [false; DISPLAY_SIZE];
        assert(self.display@ =~= Seq::new(DISPLAY_SIZE as nat, |c: int| false));
        self.advance(false);
    }

    /// `00EE`: pops the return address into the program counter.
    pub fn op_ret(&mut self)
        requires
            old(self)@.stack_pointer > 0,
        ensures
            final(self)@ == (Machine {
                program_counter: old(self)@.stack[old(self)@.stack_pointer - 1],
                stack_pointer: (old(self)@.stack_pointer - 1) as nat,
                ..old(self)@
            }),
    {
        proof {
            use_type_invariant(&*self);
        }
        self.program_counter = self.stack[self.stack_pointer - 1];
        self.stack_pointer = self.stack_pointer - 1;
    }

    /// `1nnn`: jumps to `addr`.
    pub fn op_jump_imm(&mut self, addr: u16)
        ensures
            final(self)@ == old(self)@.with_pc(addr as int),
    {
        proof {
            use_type_invariant(&*self);
        }
        self.program_counter = addr;
    }

    /// `2nnn`: pushes the address of the next instruction and jumps to `addr`.
    pub fn op_call(&mut self, addr: u16)
        requires
            old(self)@.stack_pointer < STACK_SIZE,
            old(self)@.program_counter < FETCH_LIMIT,
        ensures
            final(self)@ == (Machine {
                stack: old(self)@.stack.update(
                    old(self)@.stack_pointer as int,
                    (old(self)@.program_counter + 2) as u16,
                ),
                stack_pointer: old(self)@.stack_pointer + 1,
                ..old(self)@
            }).with_pc(addr as int),
    {
        proof {
            use_type_invariant(&*self);
        }
        self.stack[self.stack_pointer] = self.program_counter + 2;
        self.stack_pointer = self.stack_pointer + 1;
        self.program_counter = addr;
    }

    /// `3xkk`: skips the next instruction if `Vx == kk`.
    pub fn op_se_reg_imm(&mut self, x: u8, kk: u8)
        requires
            x < NUM_REGISTERS,
            old(self)@.program_counter < FETCH_LIMIT,
        ensures
            final(self)@ == old(self)@.advance(old(self)@.reg(x) == kk),
    {
        let c = self.load(x) == kk;
        self.advance(c);
    }

    /// `4xkk`: skips the next instruction if `Vx != kk`.
    pub fn op_sne_reg_imm(&mut self, x: u8, kk: u8)
        requires
            x < NUM_REGISTERS,
            old(self)@.program_counter < FETCH_LIMIT,
        ensures
            final(self)@ == old(self)@.advance(old(self)@.reg(x) != kk),
    {
        let c = self.load(x) != kk;
        self.advance(c);
    }

    /// `5xy0`: skips the next instruction if `Vx == Vy`.
    pub fn op_se_reg_reg(&mut self, x: u8, y: u8)
        requires
            x < NUM_REGISTERS,
            y < NUM_REGISTERS,
            old(self)@.program_counter < FETCH_LIMIT,
        ensures
            final(self)@ == old(self)@.advance(old(self)@.reg(x) == old(self)@.reg(y)),
    {
        let c = self.load(x) == self.load(y);
        self.advance(c);
    }

    /// `9xy0`: skips the next instruction if `Vx != Vy`.
    pub fn op_sne_reg_reg(&mut self, x: u8, y: u8)
        requires
            x < NUM_REGISTERS,
            y < NUM_REGISTERS,
            old(self)@.program_counter < FETCH_LIMIT,
        ensures
            final(self)@ == old(self)@.advance(old(self)@.reg(x) != old(self)@.reg(y)),
    {
        let c = self.load(x) != self.load(y);
        self.advance(c);
    }

    /// `6xkk`: `Vx = kk`.
    pub fn op_load_reg_imm(&mut self, x: u8, kk: u8)
        requires
            x < NUM_REGISTERS,
            old(self)@.program_counter < FETCH_LIMIT,
        ensures
            final(self)@ == old(self)@.with_reg(x, kk).advance(false),
    {
        self.store(x, kk);
        self.advance(false);
    }

    /// `7xkk`: `Vx = Vx + kk` modulo 256; `VF` is untouched.
    pub fn op_add_reg_imm(&mut self, x: u8, kk: u8)
        requires
            x < NUM_REGISTERS,
            old(self)@.program_counter < FETCH_LIMIT,
        ensures
            final(self)@ == old(self)@.with_reg(x, ((old(self)@.reg(x) + kk) % 256) as u8).advance(
                false,
            ),
    {
        let v = self.load(x).wrapping_add(kk);
        self.store(x, v);
        self.advance(false);
    }

    /// `8xy0`: `Vx = Vy`.
    pub fn op_load_reg_reg(&mut self, x: u8, y: u8)
        requires
            x < NUM_REGISTERS,
            y < NUM_REGISTERS,
            old(self)@.program_counter < FETCH_LIMIT,
        ensures
            final(self)@ == old(self)@.with_reg(x, old(self)@.reg(y)).advance(false),
    {
        let v = self.load(y);
        self.store(x, v);
        self.advance(false);
    }

    /// `8xy1`: `Vx = Vx | Vy`.
    pub fn op_or(&mut self, x: u8, y: u8)
        requires
            x < NUM_REGISTERS,
            y < NUM_REGISTERS,
            old(self)@.program_counter < FETCH_LIMIT,
        ensures
            final(self)@ == old(self)@.with_reg(x, old(self)@.reg(x) | old(self)@.reg(y)).advance(
                false,
            ),
    {
        let v = self.load(x) | self.load(y);
        self.store(x, v);
        self.advance(false);
    }

    /// `8xy2`: `Vx = Vx & Vy`.
    pub fn op_and(&mut self, x: u8, y: u8)
        requires
            x < NUM_REGISTERS,
            y < NUM_REGISTERS,
            old(self)@.program_counter < FETCH_LIMIT,
        ensures
            final(self)@ == old(self)@.with_reg(x, old(self)@.reg(x) & old(self)@.reg(y)).advance(
                false,
            ),
    {
        let v = self.load(x) & self.load(y);
        self.store(x, v);
        self.advance(false);
    }

    /// `8xy3`: `Vx = Vx ^ Vy`.
    pub fn op_xor(&mut self, x: u8, y: u8)
        requires
            x < NUM_REGISTERS,
            y < NUM_REGISTERS,
            old(self)@.program_counter < FETCH_LIMIT,
        ensures
            final(self)@ == old(self)@.with_reg(x, old(self)@.reg(x) ^ old(self)@.reg(y)).advance(
                false,
            ),
    {
        let v = self.load(x) ^ self.load(y);
        self.store(x, v);
        self.advance(false);
    }

    /// `8xy4`: `Vx = Vx + Vy` modulo 256, then `VF` = carry.
    pub fn op_add_reg_reg(&mut self, x: u8, y: u8)
        requires
            x < NUM_REGISTERS,
            y < NUM_REGISTERS,
            old(self)@.program_counter < FETCH_LIMIT,
        ensures
            ({
                let (a, b) = (old(self)@.reg(x), old(self)@.reg(y));
                final(self)@ == old(self)@.with_reg(x, ((a + b) % 256) as u8).with_reg(
                    FLAG_REGISTER,
                    if a + b > 255 { 1u8 } else { 0u8 },
                ).advance(false)
            }),
    {
        let (v, carry) = add_carry(self.load(x), self.load(y));
        self.store(x, v);
        self.set_flag(carry);
        self.advance(false);
    }

    /// `8xy5`: `Vx = Vx - Vy` modulo 256, then `VF` = 1 if `Vx >= Vy` else 0.
    pub fn op_sub_reg_reg(&mut self, x: u8, y: u8)
        requires
            x < NUM_REGISTERS,
            y < NUM_REGISTERS,
            old(self)@.program_counter < FETCH_LIMIT,
        ensures
            ({
                let (a, b) = (old(self)@.reg(x), old(self)@.reg(y));
                final(self)@ == old(self)@.with_reg(x, ((a - b) % 256) as u8).with_reg(
                    FLAG_REGISTER,
                    if a >= b { 1u8 } else { 0u8 },
                ).advance(false)
            }),
    {
        let (v, not_borrow) = sub_borrow(self.load(x), self.load(y));
        self.store(x, v);
        self.set_flag(not_borrow);
        self.advance(false);
    }

    /// `8xy7`: `Vx = Vy - Vx` modulo 256, then `VF` = 1 if `Vy >= Vx` else 0.
    pub fn op_subn_reg_reg(&mut self, x: u8, y: u8)
        requires
            x < NUM_REGISTERS,
            y < NUM_REGISTERS,
            old(self)@.program_counter < FETCH_LIMIT,
        ensures
            ({
                let (a, b) = (old(self)@.reg(y), old(self)@.reg(x));
                final(self)@ == old(self)@.with_reg(x, ((a - b) % 256) as u8).with_reg(
                    FLAG_REGISTER,
                    if a >= b { 1u8 } else { 0u8 },
                ).advance(false)
            }),
    {
        let (v, not_borrow) = sub_borrow(self.load(y), self.load(x));
        self.store(x, v);
        self.set_flag(not_borrow);
        self.advance(false);
    }

    /// `8xy6`: `VF` = low bit of `Vy`, then `Vx = Vy >> 1`.
    pub fn op_shr(&mut self, x: u8, y: u8)
        requires
            x < NUM_REGISTERS,
            y < NUM_REGISTERS,
            old(self)@.program_counter < FETCH_LIMIT,
        ensures
            ({
                let v = old(self)@.reg(y);
                final(self)@ == old(self)@.with_reg(FLAG_REGISTER, v % 2).with_reg(x, v / 2).advance(
                    false,
                )
            }),
    {
        let (v, out) = shift_right(self.load(y));
        self.set_flag(out);
        self.store(x, v);
        self.advance(false);
    }

    /// `8xyE`: `VF` = high bit of `Vy`, then `Vx = Vy << 1` truncated to a byte.
    pub fn op_shl(&mut self, x: u8, y: u8)
        requires
            x < NUM_REGISTERS,
            y < NUM_REGISTERS,
            old(self)@.program_counter < FETCH_LIMIT,
        ensures
            ({
                let v = old(self)@.reg(y);
                final(self)@ == old(self)@.with_reg(FLAG_REGISTER, v / 128).with_reg(
                    x,
                    ((2 * v) % 256) as u8,
                ).advance(false)
            }),
    {
        let (v, out) = shift_left(self.load(y));
        self.set_flag(out);
        self.store(x, v);
        self.advance(false);
    }

    /// `Annn`: `I = addr`.
    pub fn op_load_i_imm(&mut self, addr: u16)
        requires
            old(self)@.program_counter < FETCH_LIMIT,
        ensures
            final(self)@ == (Machine { index: addr, ..old(self)@ }).advance(false),
    {
        proof {
            use_type_invariant(&*self);
        }
        self.index = addr;
        self.advance(false);
    }

    /// `Bnnn`: jumps to `addr + V0`.
    pub fn op_jump_imm_plus(&mut self, addr: u16)
        requires
            addr < 0x1000,
        ensures
            final(self)@ == old(self)@.with_pc(addr + old(self)@.reg(0)),
    {
        proof {
            use_type_invariant(&*self);
        }
        self.program_counter = addr + self.load(0) as u16;
    }

    /// `Cxkk`: `Vx = random & kk`.
    pub fn op_rand(&mut self, x: u8, kk: u8, random: u8)
        requires
            x < NUM_REGISTERS,
            old(self)@.program_counter < FETCH_LIMIT,
        ensures
            final(self)@ == old(self)@.with_reg(x, random & kk).advance(false),
    {
        self.store(x, random & kk);
        self.advance(false);
    }

    /// `Ex9E`: skips the next instruction if the key numbered by the low nibble of `Vx` is down.
    pub fn op_skp(&mut self, x: u8)
        requires
            x < NUM_REGISTERS,
            old(self)@.program_counter < FETCH_LIMIT,
        ensures
            final(self)@ == old(self)@.advance(old(self)@.keypad[(old(self)@.reg(x) % 16) as int]),
    {
        let key = self.load(x) % 16;
        let down = self.keypad[key as usize];
        self.advance(down);
    }

    /// `ExA1`: skips the next instruction if the key numbered by the low nibble of `Vx` is up.
    pub fn op_sknp(&mut self, x: u8)
        requires
            x < NUM_REGISTERS,
            old(self)@.program_counter < FETCH_LIMIT,
        ensures
            final(self)@ == old(self)@.advance(
                !old(self)@.keypad[(old(self)@.reg(x) % 16) as int],
            ),
    {
        let key = self.load(x) % 16;
        let down = self.keypad[key as usize];
        self.advance(!down);
    }

    /// `Fx07`: `Vx` = delay timer.
    pub fn op_load_reg_dt(&mut self, x: u8)
        requires
            x < NUM_REGISTERS,
            old(self)@.program_counter < FETCH_LIMIT,
        ensures
            final(self)@ == old(self)@.with_reg(x, old(self)@.delay_timer).advance(false),
    {
        let v = self.delay_timer;
        self.store(x, v);
        self.advance(false);
    }

    /// `Fx0A`: waits for a key press to store in `Vx`; resolves at once if a key is already reported.
    pub fn op_load_reg_key(&mut self, x: u8)
        requires
            x < NUM_REGISTERS,
            old(self)@.program_counter < FETCH_LIMIT,
        ensures
            final(self)@ == resolve_key(Machine { key_wait: Some(x), ..old(self)@ }),
    {
        proof {
            use_type_invariant(&*self);
        }
        self.key_wait = Some(x);
        self.resolve_key_wait();
    }

    /// `Fx15`: delay timer = `Vx`.
    pub fn op_load_dt_reg(&mut self, x: u8)
        requires
            x < NUM_REGISTERS,
            old(self)@.program_counter < FETCH_LIMIT,
        ensures
            final(self)@ == (Machine { delay_timer: old(self)@.reg(x), ..old(self)@ }).advance(
                false,
            ),
    {
        proof {
            use_type_invariant(&*self);
        }
        self.delay_timer = self.load(x);
        self.advance(false);
    }

    /// `Fx18`: sound timer = `Vx`.
    pub fn op_load_st_reg(&mut self, x: u8)
        requires
            x < NUM_REGISTERS,
            old(self)@.program_counter < FETCH_LIMIT,
        ensures
            final(self)@ == (Machine { sound_timer: old(self)@.reg(x), ..old(self)@ }).advance(
                false,
            ),
    {
        proof {
            use_type_invariant(&*self);
        }
        self.sound_timer = self.load(x);
        self.advance(false);
    }

    /// `Fx1E`: `I = I + Vx` modulo 2^16, no flag.
    pub fn op_add_i_reg(&mut self, x: u8)
        requires
            x < NUM_REGISTERS,
            old(self)@.program_counter < FETCH_LIMIT,
        ensures
            final(self)@ == (Machine {
                index: ((old(self)@.index + old(self)@.reg(x)) % 0x10000) as u16,
                ..old(self)@
            }).advance(false),
    {
        proof {
            use_type_invariant(&*self);
        }
        self.index = self.index.wrapping_add(self.load(x) as u16);
        self.advance(false);
    }

    /// `Fx29`: `I` = address of the font glyph for the low nibble of `Vx`.
    pub fn op_load_font_reg(&mut self, x: u8)
        requires
            x < NUM_REGISTERS,
            old(self)@.program_counter < FETCH_LIMIT,
        ensures
            final(self)@ == (Machine {
                index: (5 * (old(self)@.reg(x) % 16)) as u16,
                ..old(self)@
            }).advance(false),
    {
        proof {
            use_type_invariant(&*self);
        }
        let digit = self.load(x) % 16;
        self.index = digit as u16 * 5;
        self.advance(false);
    }

    /// `Fx33`: writes the hundreds, tens and ones digits of `Vx` to `memory[I..I+3]`.
    pub fn op_load_bcd_reg(&mut self, x: u8)
        requires
            x < NUM_REGISTERS,
            old(self)@.index + 3 <= MEMORY_SIZE,
            old(self)@.program_counter < FETCH_LIMIT,
        ensures
            ({
                let (v, i) = (old(self)@.reg(x), old(self)@.index as int);
                final(self)@ == (Machine {
                    memory: old(self)@.memory.update(i, v / 100).update(i + 1, (v / 10) % 10).update(
                        i + 2,
                        v % 10,
                    ),
                    ..old(self)@
                }).advance(false)
            }),
    {
        proof {
            use_type_invariant(&*self);
        }
        let v = self.load(x);
        let i = self.index as usize;
        self.memory[i] = v / 100;
        self.memory[i + 1] = (v / 10) % 10;
        self.memory[i + 2] = v % 10;
        self.advance(false);
    }

    /// `Fx55`: copies `V0..=Vx` to `memory[I..=I+x]`; `I` is unchanged.
    pub fn op_store_regs_i(&mut self, x: u8)
        requires
            x < NUM_REGISTERS,
            old(self)@.index + x + 1 <= MEMORY_SIZE,
            old(self)@.program_counter < FETCH_LIMIT,
        ensures
            ({
                let m = old(self)@;
                final(self)@ == (Machine {
                    memory: Seq::new(
                        m.memory.len(),
                        |a: int|
                            if m.index <= a <= m.index + x {
                                m.registers[a - m.index]
                            } else {
                                m.memory[a]
                            },
                    ),
                    ..m
                }).advance(false)
            }),
    {
        proof {
            use_type_invariant(&*self);
        }
        let ghost m = self@;
        let base = self.index as usize;
        let mut j: usize = 0;
        while j <= x as usize
            invariant
                0 <= j <= x + 1,
                x < NUM_REGISTERS,
                base == m.index,
                base + x + 1 <= MEMORY_SIZE,
                self.inv(),
                self@ == (Machine {
                    memory: Seq::new(
                        m.memory.len(),
                        |a: int|
                            if base <= a < base + j {
                                m.registers[a - base]
                            } else {
                                m.memory[a]
                            },
                    ),
                    ..m
                }),
            decreases x + 1 - j,
        {
            self.memory[base + j] = self.registers[j];
            j = j + 1;
            assert(self.memory@ =~= Seq::new(
                m.memory.len(),
                |a: int|
                    if base <= a < base + j {
                        m.registers[a - base]
                    } else {
                        m.memory[a]
                    },
            ));
        }
        self.advance(false);
    }

    /// `Fx65`: copies `memory[I..=I+x]` to `V0..=Vx`; `I` is unchanged.
    pub fn op_load_regs_i(&mut self, x: u8)
        requires
            x < NUM_REGISTERS,
            old(self)@.index + x + 1 <= MEMORY_SIZE,
            old(self)@.program_counter < FETCH_LIMIT,
        ensures
            ({
                let m = old(self)@;
                final(self)@ == (Machine {
                    registers: Seq::new(
                        m.registers.len(),
                        |j: int|
                            if j <= x {
                                m.memory[m.index + j]
                            } else {
                                m.registers[j]
                            },
                    ),
                    ..m
                }).advance(false)
            }),
    {
        proof {
            use_type_invariant(&*self);
        }
        let ghost m = self@;
        let base = self.index as usize;
        let mut j: usize = 0;
        while j <= x as usize
            invariant
                0 <= j <= x + 1,
                x < NUM_REGISTERS,
                base == m.index,
                base + x + 1 <= MEMORY_SIZE,
                self.inv(),
                self@ == (Machine {
                    registers: Seq::new(
                        m.registers.len(),
                        |k: int|
                            if k < j {
                                m.memory[base + k]
                            } else {
                                m.registers[k]
                            },
                    ),
                    ..m
                }),
            decreases x + 1 - j,
        {
            self.registers[j] = self.memory[base + j];
            j = j + 1;
            assert(self.registers@ =~= Seq::new(
                m.registers.len(),
                |k: int|
                    if k < j {
                        m.memory[base + k]
                    } else {
                        m.registers[k]
                    },
            ));
        }
        self.advance(false);
    }
}

/// Whether a draw has already reached cell `cell`: the sprite covers it and
/// it lies in one of the sprite's first `i` rows.
spec fn drawn_before(m: Machine, vx: u8, vy: u8, n: u8, cell: int, i: int) -> bool {
    &&& sprite_covers(m.memory, m.index, vx, vy, n, cell)
    &&& cell / (DISPLAY_W as int) - vy < i
}

spec fn partial_display(m: Machine, vx: u8, vy: u8, n: u8, i: int) -> Seq<bool> {
    Seq::new(DISPLAY_SIZE as nat, |c: int| m.display[c] != drawn_before(m, vx, vy, n, c, i))
}

spec fn partial_collides(m: Machine, vx: u8, vy: u8, n: u8, i: int) -> bool {
    exists|c: int|
        0 <= c < DISPLAY_SIZE && m.display[c] && #[trigger] drawn_before(m, vx, vy, n, c, i)
}

/// Whether a row write has already reached cell `cell`: the row covers it
/// and it lies in one of the row's first `j` columns.
spec fn written_before(x: int, y: int, byte: u8, cell: int, j: int) -> bool {
    &&& row_covers(x, y, byte, cell)
    &&& cell % (DISPLAY_W as int) - x < j
}

spec fn partial_row(display: Seq<bool>, x: int, y: int, byte: u8, j: int) -> Seq<bool> {
    Seq::new(DISPLAY_SIZE as nat, |c: int| display[c] != written_before(x, y, byte, c, j))
}

spec fn partial_row_collides(display: Seq<bool>, x: int, y: int, byte: u8, j: int) -> bool {
    exists|c: int|
        0 <= c < DISPLAY_SIZE && display[c] && #[trigger] written_before(x, y, byte, c, j)
}

proof fn lemma_cell_of(row: int, col: int)
    requires
        0 <= row < DISPLAY_H,
        0 <= col < DISPLAY_W,
    ensures
        (row * 64 + col) / 64 == row,
        (row * 64 + col) % 64 == col,
        0 <= row * 64 + col < DISPLAY_SIZE,
{
}

impl Chip {
    /// XORs one sprite row `byte` into the display with its leftmost bit at
    /// column `x` of row `y`; bits that fall off the display are dropped.
    /// Returns whether a lit cell was turned off.
    pub fn display_write_byte(&mut self, x: usize, y: usize, byte: u8) -> (overlap: bool)
        ensures
            final(self)@ == (Machine {
                display: written_row(old(self)@.display, x as int, y as int, byte),
                ..old(self)@
            }),
            overlap == row_collides(old(self)@.display, x as int, y as int, byte),
    {
        proof {
            use_type_invariant(&*self);
        }
        let ghost m = self@;
        let ghost (xi, yi) = (x as int, y as int);
        let mut overlap = false;
        let mut j: u8 = 0;
        while j < 8
            invariant
                j <= 8,
                xi == x,
                yi == y,
                m.display.len() == DISPLAY_SIZE,
                self.inv(),
                self@ == (Machine { display: partial_row(m.display, xi, yi, byte, j as int), ..m }),
                overlap == partial_row_collides(m.display, xi, yi, byte, j as int),
            decreases 8 - j,
        {
            let ghost was_overlap = overlap;
            if y < DISPLAY_H && x < DISPLAY_W && (j as usize) < DISPLAY_W - x {
                let cell = y * DISPLAY_W + x + j as usize;
                proof {
                    lemma_cell_of(yi, xi + j);
                }
                let bit = (byte >> (7 - j)) & 1 == 1;
                assert(bit == pixel_bit(byte, j as int));
                if bit {
                    if self.display[cell] {
                        overlap = true;
                    }
                    self.display[cell] = !self.display[cell];
                }
                proof {
                    assert forall|c: int| 0 <= c < DISPLAY_SIZE implies #[trigger] written_before(
                        xi,
                        yi,
                        byte,
                        c,
                        j + 1,
                    ) == (written_before(xi, yi, byte, c, j as int) || (c == cell && bit)) by {
                        assert(c == (c / 64) * 64 + c % 64);
                    }
                    assert(self.display@ =~= partial_row(m.display, xi, yi, byte, j + 1));
                    if overlap {
                        if was_overlap {
                            let w = choose|c: int|
                                0 <= c < DISPLAY_SIZE && m.display[c] && #[trigger] written_before(
                                    xi,
                                    yi,
                                    byte,
                                    c,
                                    j as int,
                                );
                            assert(written_before(xi, yi, byte, w, j + 1));
                        } else {
                            assert(written_before(xi, yi, byte, cell as int, j + 1));
                        }
                    } else {
                        assert(!written_before(xi, yi, byte, cell as int, j as int));
                        assert forall|c: int|
                            0 <= c < DISPLAY_SIZE && m.display[c] implies !#[trigger] written_before(
                            xi,
                            yi,
                            byte,
                            c,
                            j + 1,
                        ) by {
                            assert(!written_before(xi, yi, byte, c, j as int));
                        }
                    }
                }
            } else {
                proof {
                    assert forall|c: int| 0 <= c < DISPLAY_SIZE implies #[trigger] written_before(
                        xi,
                        yi,
                        byte,
                        c,
                        j + 1,
                    ) == written_before(xi, yi, byte, c, j as int) by {}
                    assert(self.display@ =~= partial_row(m.display, xi, yi, byte, j + 1));
                    if partial_row_collides(m.display, xi, yi, byte, j + 1) {
                        let w = choose|c: int|
                            0 <= c < DISPLAY_SIZE && m.display[c] && #[trigger] written_before(
                                xi,
                                yi,
                                byte,
                                c,
                                j + 1,
                            );
                        assert(written_before(xi, yi, byte, w, j as int));
                    }
                    if was_overlap {
                        let w = choose|c: int|
                            0 <= c < DISPLAY_SIZE && m.display[c] && #[trigger] written_before(
                                xi,
                                yi,
                                byte,
                                c,
                                j as int,
                            );
                        assert(written_before(xi, yi, byte, w, j + 1));
                    }
                }
            }
            j = j + 1;
        }
        proof {
            assert forall|c: int| 0 <= c < DISPLAY_SIZE implies #[trigger] written_before(
                xi,
                yi,
                byte,
                c,
                8,
            ) == row_covers(xi, yi, byte, c) by {}
            assert(self.display@ =~= written_row(m.display, xi, yi, byte));
            if overlap {
                let w = choose|c: int|
                    0 <= c < DISPLAY_SIZE && m.display[c] && #[trigger] written_before(
                        xi,
                        yi,
                        byte,
                        c,
                        8,
                    );
                assert(row_covers(xi, yi, byte, w));
            }
            if row_collides(m.display, xi, yi, byte) {
                let w = choose|c: int|
                    0 <= c < DISPLAY_SIZE && m.display[c] && #[trigger] row_covers(
                        xi,
                        yi,
                        byte,
                        c,
                    );
                assert(written_before(xi, yi, byte, w, 8));
            }
        }
        overlap
    }

    /// Draws the `n`-row sprite at `memory[I..]` at `(Vx, Vy)`; `VF` becomes
    /// 1 if a lit cell was turned off, else 0.
    pub fn op_draw(&mut self, x: u8, y: u8, n: u8)
        requires
            x < NUM_REGISTERS,
            y < NUM_REGISTERS,
            old(self)@.index + n <= MEMORY_SIZE,
            old(self)@.program_counter < FETCH_LIMIT,
        ensures
            ({
                let m = old(self)@;
                let (vx, vy) = (m.reg(x), m.reg(y));
                final(self)@ == (Machine { display: drawn_display(m, vx, vy, n), ..m }).with_reg(
                    FLAG_REGISTER,
                    if draw_collides(m, vx, vy, n) { 1u8 } else { 0u8 },
                ).advance(false)
            }),
    {
        proof {
            use_type_invariant(&*self);
        }
        let vx = self.load(x);
        let vy = self.load(y);
        let ghost m = self@;
        let base = self.index as usize;
        let mut overlap = false;
        let mut i: u8 = 0;
        while i < n
            invariant
                i <= n,
                base == m.index,
                base + n <= MEMORY_SIZE,
                m.memory.len() == MEMORY_SIZE,
                m.display.len() == DISPLAY_SIZE,
                self.inv(),
                self@ == (Machine { display: partial_display(m, vx, vy, n, i as int), ..m }),
                overlap == partial_collides(m, vx, vy, n, i as int),
            decreases n - i,
        {
            let byte = self.memory[base + i as usize];
            let ghost before = self.display@;
            let ghost row = vy + i;
            let hit = self.display_write_byte(vx as usize, vy as usize + i as usize, byte);
            proof {
                assert forall|c: int| 0 <= c < DISPLAY_SIZE implies #[trigger] drawn_before(
                    m,
                    vx,
                    vy,
                    n,
                    c,
                    i + 1,
                ) == (drawn_before(m, vx, vy, n, c, i as int) || row_covers(
                    vx as int,
                    row,
                    byte,
                    c,
                )) && !(drawn_before(m, vx, vy, n, c, i as int) && row_covers(
                    vx as int,
                    row,
                    byte,
                    c,
                )) by {}
                assert(self.display@ =~= partial_display(m, vx, vy, n, i + 1));
                if hit {
                    let w = choose|c: int|
                        0 <= c < DISPLAY_SIZE && before[c] && #[trigger] row_covers(
                            vx as int,
                            row,
                            byte,
                            c,
                        );
                    assert(drawn_before(m, vx, vy, n, w, i + 1));
                }
                if overlap {
                    let w = choose|c: int|
                        0 <= c < DISPLAY_SIZE && m.display[c] && #[trigger] drawn_before(
                            m,
                            vx,
                            vy,
                            n,
                            c,
                            i as int,
                        );
                    assert(drawn_before(m, vx, vy, n, w, i + 1));
                }
                if partial_collides(m, vx, vy, n, i + 1) {
                    let w = choose|c: int|
                        0 <= c < DISPLAY_SIZE && m.display[c] && #[trigger] drawn_before(
                            m,
                            vx,
                            vy,
                            n,
                            c,
                            i + 1,
                        );
                    if !drawn_before(m, vx, vy, n, w, i as int) {
                        assert(before[w] && row_covers(vx as int, row, byte, w));
                    }
                }
            }
            overlap = overlap || hit;
            i = i + 1;
        }
        proof {
            assert forall|c: int| 0 <= c < DISPLAY_SIZE implies #[trigger] drawn_before(
                m,
                vx,
                vy,
                n,
                c,
                n as int,
            ) == sprite_covers(m.memory, m.index, vx, vy, n, c) by {}
            assert(self.display@ =~= drawn_display(m, vx, vy, n));
            if overlap {
                let w = choose|c: int|
                    0 <= c < DISPLAY_SIZE && m.display[c] && #[trigger] drawn_before(
                        m,
                        vx,
                        vy,
                        n,
                        c,
                        n as int,
                    );
                assert(sprite_covers(m.memory, m.index, vx, vy, n, w));
            }
            if draw_collides(m, vx, vy, n) {
                let w = choose|c: int|
                    0 <= c < DISPLAY_SIZE && m.display[c] && #[trigger] sprite_covers(
                        m.memory,
                        m.index,
                        vx,
                        vy,
                        n,
                        c,
                    );
                assert(drawn_before(m, vx, vy, n, w, n as int));
            }
        }
        self.set_flag(if overlap { 1 } else { 0 });
        self.advance(false);
    }
}

impl Chip {
    /// Runs one operation that raises no fault.
    fn execute(&mut self, op: Op, random: u8)
        requires
            op.operands_in_range(),
            fault(old(self)@, op) is None,
            old(self)@.program_counter < FETCH_LIMIT,
        ensures
            final(self)@ == execute(old(self)@, op, random),
    {
        match op {
            Op::Nop => self.advance(false),
            Op::ClearScreen => self.op_clearsrc(),
            Op::Return => self.op_ret(),
            Op::Jump { addr } => self.op_jump_imm(addr),
            Op::Call { addr } => self.op_call(addr),
            Op::SkipEqImm { x, kk } => self.op_se_reg_imm(x, kk),
            Op::SkipNeImm { x, kk } => self.op_sne_reg_imm(x, kk),
            Op::SkipEqReg { x, y } => self.op_se_reg_reg(x, y),
            Op::SkipNeReg { x, y } => self.op_sne_reg_reg(x, y),
            Op::LoadImm { x, kk } => self.op_load_reg_imm(x, kk),
            Op::AddImm { x, kk } => self.op_add_reg_imm(x, kk),
            Op::LoadReg { x, y } => self.op_load_reg_reg(x, y),
            Op::Or { x, y } => self.op_or(x, y),
            Op::And { x, y } => self.op_and(x, y),
            Op::Xor { x, y } => self.op_xor(x, y),
            Op::AddReg { x, y } => self.op_add_reg_reg(x, y),
            Op::SubReg { x, y } => self.op_sub_reg_reg(x, y),
            Op::SubNeg { x, y } => self.op_subn_reg_reg(x, y),
            Op::ShiftRight { x, y } => self.op_shr(x, y),
            Op::ShiftLeft { x, y } => self.op_shl(x, y),
            Op::LoadIndex { addr } => self.op_load_i_imm(addr),
            Op::JumpPlusV0 { addr } => self.op_jump_imm_plus(addr),
            Op::Random { x, kk } => self.op_rand(x, kk, random),
            Op::Draw { x, y, n } => self.op_draw(x, y, n),
            Op::SkipKey { x } => self.op_skp(x),
            Op::SkipNotKey { x } => self.op_sknp(x),
            Op::LoadDelay { x } => self.op_load_reg_dt(x),
            Op::WaitKey { x } => self.op_load_reg_key(x),
            Op::SetDelay { x } => self.op_load_dt_reg(x),
            Op::SetSound { x } => self.op_load_st_reg(x),
            Op::AddIndex { x } => self.op_add_i_reg(x),
            Op::FontAddr { x } => self.op_load_font_reg(x),
            Op::Bcd { x } => self.op_load_bcd_reg(x),
            Op::StoreRegs { x } => self.op_store_regs_i(x),
            Op::LoadRegs { x } => self.op_load_regs_i(x),
        }
    }

    /// Runs one cycle at time `now`, with `random` as the byte that a
    /// random-number instruction draws. On success the machine is in the
    /// state that [`step`] gives; on an error it is left as it was.
    pub fn cycle_at(&mut self, now: u64, random: u8) -> (r: Result<(), ChipError>)
        ensures
            r is Ok <==> step(old(self)@, now, random) is Ok,
            r is Ok ==> final(self)@ == step(old(self)@, now, random)->Ok_0,
            r is Err ==> r->Err_0 == step(old(self)@, now, random)->Err_0 && final(self)@
                == old(self)@,
            final(self)@.wf(),
    {
        proof {
            use_type_invariant(&*self);
            self.lemma_view_wf();
        }
        if !self.running {
            return Ok(());
        }
        if self.program_counter >= FETCH_LIMIT {
            self.running = false;
            proof {
                self.lemma_view_wf();
            }
            return Ok(());
        }
        if self.key_wait.is_some() {
            self.tick_timers(now);
            self.resolve_key_wait();
            self.check_halt();
            proof {
                use_type_invariant(&*self);
                self.lemma_view_wf();
            }
            return Ok(());
        }
        let word = self.fetch();
        let op = match decode(word) {
            Some(op) => op,
            None => {
                return Err(ChipError::InvalidOpcode { word, pc: self.program_counter });
            },
        };
        proof {
            crate::decode::lemma_decoded_operands_in_range(word);
        }
        if let Some(e) = self.check_fault(op) {
            return Err(e);
        }
        self.tick_timers(now);
        self.execute(op, random);
        self.check_halt();
        proof {
            use_type_invariant(&*self);
            self.lemma_view_wf();
        }
        Ok(())
    }

    /// Runs one cycle, reading the clock and drawing a random byte; see
    /// [`Chip::cycle_at`].
    pub fn cycle(&mut self) -> (r: Result<(), ChipError>)
        ensures
            exists|now: u64, random: u8|
                {
                    let s = #[trigger] step(old(self)@, now, random);
                    &&& (r is Ok <==> s is Ok)
                    &&& (r is Ok ==> final(self)@ == s->Ok_0)
                    &&& (r is Err ==> r->Err_0 == s->Err_0 && final(self)@ == old(self)@)
                },
            final(self)@.wf(),
    {
        let now = time::precise_time_ns();
        let random = rand::random::<u8>();
        self.cycle_at(now, random)
    }
}

/// A snapshot of the registers, timers, program counter, index register and
/// stack depth, for debugging and inspection.
#[derive(Clone, Copy, Debug, PartialEq, Eq)]
pub struct RegisterDump {
    pub registers: [u8; NUM_REGISTERS],
    pub delay_timer: u8,
    pub sound_timer: u8,
    pub program_counter: u16,
    pub index: u16,
    pub stack_pointer: usize,
}

// Input from the host and read access for it.
impl Chip {
    /// Records whether key `key` is held down.
    pub fn set_keypad(&mut self, key: usize, pressed: bool)
        requires
            key < KEYPAD_SIZE,
        ensures
            final(self)@ == (Machine {
                keypad: old(self)@.keypad.update(key as int, pressed),
                ..old(self)@
            }),
    {
        proof {
            use_type_invariant(&*self);
        }
        self.keypad[key] = pressed;
    }

    /// Reports a key press for a pending key wait, or withdraws the report
    /// with `None`.
    pub fn report_key_pressed(&mut self, key: Option<u8>)
        ensures
            final(self)@ == (Machine { key_pressed: key, ..old(self)@ }),
    {
        proof {
            use_type_invariant(&*self);
        }
        self.key_pressed = key;
    }

    /// A copy of the display, row by row, `DISPLAY_W` cells to a row.
    pub fn display(&self) -> (r: [bool; DISPLAY_SIZE])
        ensures
            r@ == self@.display,
    {
        self.display
    }

    /// Whether the machine still executes instructions.
    pub fn is_running(&self) -> (r: bool)
        ensures
            r == self@.running,
    {
        self.running
    }

    /// Whether the machine is suspended until a key is reported.
    pub fn is_waiting_for_key(&self) -> (r: bool)
        ensures
            r == self@.key_wait is Some,
    {
        self.key_wait.is_some()
    }

    /// The byte at address `addr`.
    pub fn memory_byte(&self, addr: usize) -> (r: u8)
        requires
            addr < MEMORY_SIZE,
        ensures
            r == self@.memory[addr as int],
    {
        self.memory[addr]
    }

    /// The registers, timers, program counter, index register and stack depth.
    pub fn dump(&self) -> (r: RegisterDump)
        ensures
            r.registers@ == self@.registers,
            r.delay_timer == self@.delay_timer,
            r.sound_timer == self@.sound_timer,
            r.program_counter == self@.program_counter,
            r.index == self@.index,
            r.stack_pointer == self@.stack_pointer,
    {
        RegisterDump {
            registers: self.registers,
            delay_timer: self.delay_timer,
            sound_timer: self.sound_timer,
            program_counter: self.program_counter,
            index: self.index,
            stack_pointer: self.stack_pointer,
        }
    }
}

} // verus!
