//! The mathematical model of the machine and of one fetch-decode-execute cycle.

use vstd::prelude::*;
use crate::decode::{Op, decode_spec};
use crate::error::ChipError;

verus! {

/// Bytes of addressable memory.
pub const MEMORY_SIZE: usize = 4096;

/// General-purpose registers `V0..=VF`.
pub const NUM_REGISTERS: usize = 16;

/// Entries of the call stack.
pub const STACK_SIZE: usize = 16;

/// Address at which programs are loaded and execution starts.
pub const PROGRAM_BASE: u16 = 0x200;

/// Largest program that fits above the program base.
pub const MAX_ROM_SIZE: usize = 3584;

/// Display width in cells.
pub const DISPLAY_W: usize = 64;

/// Display height in cells.
pub const DISPLAY_H: usize = 32;

/// Display cells, row by row.
pub const DISPLAY_SIZE: usize = DISPLAY_W * DISPLAY_H;

/// Keys of the keypad.
pub const KEYPAD_SIZE: usize = 16;

/// Bytes of the built-in font: 16 glyphs of 5 bytes, at address 0.
pub const FONT_SIZE: usize = 80;

/// Register that receives carry, borrow, shift and collision flags.
pub const FLAG_REGISTER: u8 = 0xF;

/// The highest program counter from which an instruction may be fetched is
/// one below this: both bytes of the word must lie in memory.
pub const FETCH_LIMIT: u16 = 4094;

/// Nanoseconds that must pass before the timers count down once (1/60 s).
pub const TIMER_PERIOD_NS: u64 = 16_666_000;

/// The built-in hexadecimal font, glyph `d` at bytes `5 * d .. 5 * d + 5`.
pub open spec fn font_glyphs() -> Seq<u8> {
    seq![
        0xF0u8, 0x90, 0x90, 0x90, 0xF0, 0x20, 0x60, 0x20, 0x20, 0x70,
        0xF0, 0x10, 0xF0, 0x80, 0xF0, 0xF0, 0x10, 0xF0, 0x10, 0xF0,
        0x90, 0x90, 0xF0, 0x10, 0x10, 0xF0, 0x80, 0xF0, 0x10, 0xF0,
        0xF0, 0x80, 0xF0, 0x90, 0xF0, 0xF0, 0x10, 0x20, 0x40, 0x40,
        0xF0, 0x90, 0xF0, 0x90, 0xF0, 0xF0, 0x90, 0xF0, 0x10, 0xF0,
        0xF0, 0x90, 0xF0, 0x90, 0x90, 0xE0, 0x90, 0xE0, 0x90, 0xE0,
        0xF0, 0x80, 0x80, 0x80, 0xF0, 0xE0, 0x90, 0x90, 0x90, 0xE0,
        0xF0, 0x80, 0xF0, 0x80, 0xF0, 0xF0, 0x80, 0xF0, 0x80, 0x80,
    ]
}

/// The whole state of the machine, as a value.
#[verifier::ext_equal]
pub struct Machine {
    pub memory: Seq<u8>,
    pub registers: Seq<u8>,
    pub stack: Seq<u16>,
    pub stack_pointer: nat,
    pub program_counter: u16,
    pub index: u16,
    pub display: Seq<bool>,
    /// When the timers last counted down, in nanoseconds.
    pub clock: u64,
    pub delay_timer: u8,
    pub sound_timer: u8,
    pub keypad: Seq<bool>,
    /// The key most recently reported as pressed and not yet consumed.
    pub key_pressed: Option<u8>,
    /// The register awaiting a key press, while the machine is suspended.
    pub key_wait: Option<u8>,
    pub running: bool,
    /// Length of the loaded program.
    pub rom_size: nat,
}

impl Machine {
    /// Sizes of the parts and bounds of the counters.
    pub open spec fn wf(self) -> bool {
        &&& self.memory.len() == MEMORY_SIZE
        &&& self.registers.len() == NUM_REGISTERS
        &&& self.stack.len() == STACK_SIZE
        &&& self.stack_pointer <= STACK_SIZE
        &&& self.display.len() == DISPLAY_SIZE
        &&& self.keypad.len() == KEYPAD_SIZE
        &&& self.rom_size <= MAX_ROM_SIZE
        &&& (self.key_wait matches Some(x) ==> x < NUM_REGISTERS)
    }

    pub open spec fn reg(self, x: u8) -> u8 {
        self.registers[x as int]
    }

    pub open spec fn with_reg(self, x: u8, v: u8) -> Machine {
        Machine { registers: self.registers.update(x as int, v), ..self }
    }

    pub open spec fn with_pc(self, pc: int) -> Machine {
        Machine { program_counter: pc as u16, ..self }
    }

    /// Moves past the current instruction, and past the next one too when `skip`.
    pub open spec fn advance(self, skip: bool) -> Machine {
        self.with_pc(self.program_counter + if skip { 4int } else { 2int })
    }

    /// The big-endian word at the program counter.
    pub open spec fn fetch(self) -> u16 {
        (self.memory[self.program_counter as int] * 256 + self.memory[self.program_counter + 1]) as u16
    }
}

/// The state after a reset at time `now`: memory holds only the font, every
/// register, timer, key and display cell is zero, execution starts at the
/// program base.
pub open spec fn reset_state(now: u64) -> Machine {
    Machine {
        memory: Seq::new(
            MEMORY_SIZE as nat,
            |a: int|
                if a < FONT_SIZE {
                    font_glyphs()[a]
                } else {
                    0u8
                },
        ),
        registers: Seq::new(NUM_REGISTERS as nat, |i: int| 0u8),
        stack: Seq::new(STACK_SIZE as nat, |i: int| 0u16),
        stack_pointer: 0,
        program_counter: PROGRAM_BASE,
        index: 0,
        display: Seq::new(DISPLAY_SIZE as nat, |i: int| false),
        clock: now,
        delay_timer: 0,
        sound_timer: 0,
        keypad: Seq::new(KEYPAD_SIZE as nat, |i: int| false),
        key_pressed: None,
        key_wait: None,
        running: true,
        rom_size: 0,
    }
}

/// Memory after a reset with `rom` copied to the program base.
pub open spec fn loaded_memory(rom: Seq<u8>) -> Seq<u8> {
    Seq::new(
        MEMORY_SIZE as nat,
        |a: int|
            if a < FONT_SIZE {
                font_glyphs()[a]
            } else if PROGRAM_BASE <= a < PROGRAM_BASE + rom.len() {
                rom[a - PROGRAM_BASE]
            } else {
                0u8
            },
    )
}

/// The state after loading `rom` at time `now`.
pub open spec fn loaded_state(rom: Seq<u8>, now: u64) -> Machine {
    Machine { memory: loaded_memory(rom), rom_size: rom.len(), ..reset_state(now) }
}

/// Counts down each non-zero timer once, if more than a timer period has
/// passed since the last count-down; `now` then becomes the last count-down.
pub open spec fn tick(m: Machine, now: u64) -> Machine {
    if now >= m.clock && now - m.clock > TIMER_PERIOD_NS {
        Machine {
            clock: now,
            delay_timer: if m.delay_timer > 0 { (m.delay_timer - 1) as u8 } else { 0 },
            sound_timer: if m.sound_timer > 0 { (m.sound_timer - 1) as u8 } else { 0 },
            ..m
        }
    } else {
        m
    }
}

/// Ends a key wait when a key has been reported: the key goes to the waiting
/// register, both the wait and the report are cleared, and execution moves on.
pub open spec fn resolve_key(m: Machine) -> Machine {
    match (m.key_wait, m.key_pressed) {
        (Some(x), Some(k)) => Machine {
            key_wait: None,
            key_pressed: None,
            ..m.with_reg(x, k).advance(false)
        },
        _ => m,
    }
}

/// Stops the machine once the program counter has left the fetchable memory
/// or the loaded program.
pub open spec fn halt_check(m: Machine) -> Machine {
    if m.program_counter >= FETCH_LIMIT || m.program_counter >= PROGRAM_BASE + m.rom_size {
        Machine { running: false, ..m }
    } else {
        m
    }
}

/// Bit `j` of a sprite row, counted from the most significant bit.
pub open spec fn pixel_bit(b: u8, j: int) -> bool {
    (b >> ((7 - j) as u8)) & 1u8 == 1u8
}

/// Whether an `n`-row sprite read from `memory[index..]` and placed with its
/// top-left corner at `(vx, vy)` sets display cell `cell`. Cells past the
/// right or bottom edge are not drawn.
pub open spec fn sprite_covers(
    memory: Seq<u8>,
    index: u16,
    vx: u8,
    vy: u8,
    n: u8,
    cell: int,
) -> bool {
    let row = cell / (DISPLAY_W as int);
    let col = cell % (DISPLAY_W as int);
    &&& vy <= row < vy + n
    &&& vx <= col < vx + 8
    &&& pixel_bit(memory[index + (row - vy)], col - vx)
}

/// Whether a sprite row `byte` with its leftmost bit at column `x` of row `y`
/// sets display cell `cell`. Bits past the right edge are not drawn.
pub open spec fn row_covers(x: int, y: int, byte: u8, cell: int) -> bool {
    let row = cell / (DISPLAY_W as int);
    let col = cell % (DISPLAY_W as int);
    &&& row == y
    &&& x <= col < x + 8
    &&& pixel_bit(byte, col - x)
}

/// The display after XOR-ing one sprite row into it.
pub open spec fn written_row(display: Seq<bool>, x: int, y: int, byte: u8) -> Seq<bool> {
    Seq::new(DISPLAY_SIZE as nat, |c: int| display[c] != row_covers(x, y, byte, c))
}

/// Whether XOR-ing one sprite row turns some lit cell off.
pub open spec fn row_collides(display: Seq<bool>, x: int, y: int, byte: u8) -> bool {
    exists|c: int| 0 <= c < DISPLAY_SIZE && display[c] && #[trigger] row_covers(x, y, byte, c)
}

/// The display after XOR-ing the sprite into it.
pub open spec fn drawn_display(m: Machine, vx: u8, vy: u8, n: u8) -> Seq<bool> {
    Seq::new(
        DISPLAY_SIZE as nat,
        |c: int| m.display[c] != sprite_covers(m.memory, m.index, vx, vy, n, c),
    )
}

/// Whether drawing the sprite turns some lit cell off.
pub open spec fn draw_collides(m: Machine, vx: u8, vy: u8, n: u8) -> bool {
    exists|c: int|
        0 <= c < DISPLAY_SIZE && m.display[c] && #[trigger] sprite_covers(
            m.memory,
            m.index,
            vx,
            vy,
            n,
            c,
        )
}

/// The fault an operation raises in state `m`, if any.
pub open spec fn fault(m: Machine, op: Op) -> Option<ChipError> {
    let pc = m.program_counter;
    let out_of_range = Some(ChipError::MemoryOutOfRange { pc, index: m.index });
    match op {
        Op::Call { .. } => if m.stack_pointer >= STACK_SIZE {
            Some(ChipError::StackOverflow { pc })
        } else {
            None
        },
        Op::Return => if m.stack_pointer == 0 {
            Some(ChipError::StackUnderflow { pc })
        } else {
            None
        },
        Op::Draw { n, .. } => if m.index + n > MEMORY_SIZE {
            out_of_range
        } else {
            None
        },
        Op::Bcd { .. } => if m.index + 3 > MEMORY_SIZE {
            out_of_range
        } else {
            None
        },
        Op::StoreRegs { x } | Op::LoadRegs { x } => if m.index + x + 1 > MEMORY_SIZE {
            out_of_range
        } else {
            None
        },
        _ => None,
    }
}

/// The effect of an operation that raises no fault; `random` is the byte
/// that `Cxkk` masks.
pub open spec fn execute(m: Machine, op: Op, random: u8) -> Machine {
    let flag = FLAG_REGISTER;
    match op {
        Op::Nop => m.advance(false),
        Op::ClearScreen => Machine {
            display: Seq::new(DISPLAY_SIZE as nat, |c: int| false),
            ..m
        }.advance(false),
        Op::Return => Machine {
            program_counter: m.stack[m.stack_pointer - 1],
            stack_pointer: (m.stack_pointer - 1) as nat,
            ..m
        },
        Op::Jump { addr } => m.with_pc(addr as int),
        Op::Call { addr } => Machine {
            stack: m.stack.update(m.stack_pointer as int, (m.program_counter + 2) as u16),
            stack_pointer: m.stack_pointer + 1,
            ..m
        }.with_pc(addr as int),
        Op::SkipEqImm { x, kk } => m.advance(m.reg(x) == kk),
        Op::SkipNeImm { x, kk } => m.advance(m.reg(x) != kk),
        Op::SkipEqReg { x, y } => m.advance(m.reg(x) == m.reg(y)),
        Op::SkipNeReg { x, y } => m.advance(m.reg(x) != m.reg(y)),
        Op::LoadImm { x, kk } => m.with_reg(x, kk).advance(false),
        Op::AddImm { x, kk } => m.with_reg(x, ((m.reg(x) + kk) % 256) as u8).advance(false),
        Op::LoadReg { x, y } => m.with_reg(x, m.reg(y)).advance(false),
        Op::Or { x, y } => m.with_reg(x, m.reg(x) | m.reg(y)).advance(false),
        Op::And { x, y } => m.with_reg(x, m.reg(x) & m.reg(y)).advance(false),
        Op::Xor { x, y } => m.with_reg(x, m.reg(x) ^ m.reg(y)).advance(false),
        Op::AddReg { x, y } => {
            let (a, b) = (m.reg(x), m.reg(y));
            m.with_reg(x, ((a + b) % 256) as u8).with_reg(
                flag,
                if a + b > 255 { 1u8 } else { 0u8 },
            ).advance(false)
        },
        Op::SubReg { x, y } => {
            let (a, b) = (m.reg(x), m.reg(y));
            m.with_reg(x, ((a - b) % 256) as u8).with_reg(
                flag,
                if a >= b { 1u8 } else { 0u8 },
            ).advance(false)
        },
        Op::SubNeg { x, y } => {
            let (a, b) = (m.reg(y), m.reg(x));
            m.with_reg(x, ((a - b) % 256) as u8).with_reg(
                flag,
                if a >= b { 1u8 } else { 0u8 },
            ).advance(false)
        },
        Op::ShiftRight { x, y } => m.with_reg(flag, m.reg(y) % 2).with_reg(
            x,
            m.reg(y) / 2,
        ).advance(false),
        Op::ShiftLeft { x, y } => m.with_reg(flag, m.reg(y) / 128).with_reg(
            x,
            ((2 * m.reg(y)) % 256) as u8,
        ).advance(false),
        Op::LoadIndex { addr } => Machine { index: addr, ..m }.advance(false),
        Op::JumpPlusV0 { addr } => m.with_pc(addr + m.reg(0)),
        Op::Random { x, kk } => m.with_reg(x, random & kk).advance(false),
        Op::Draw { x, y, n } => {
            let (vx, vy) = (m.reg(x), m.reg(y));
            Machine { display: drawn_display(m, vx, vy, n), ..m }.with_reg(
                flag,
                if draw_collides(m, vx, vy, n) { 1u8 } else { 0u8 },
            ).advance(false)
        },
        Op::SkipKey { x } => m.advance(m.keypad[(m.reg(x) % 16) as int]),
        Op::SkipNotKey { x } => m.advance(!m.keypad[(m.reg(x) % 16) as int]),
        Op::LoadDelay { x } => m.with_reg(x, m.delay_timer).advance(false),
        Op::WaitKey { x } => resolve_key(Machine { key_wait: Some(x), ..m }),
        Op::SetDelay { x } => Machine { delay_timer: m.reg(x), ..m }.advance(false),
        Op::SetSound { x } => Machine { sound_timer: m.reg(x), ..m }.advance(false),
        Op::AddIndex { x } => Machine {
            index: ((m.index + m.reg(x)) % 0x10000) as u16,
            ..m
        }.advance(false),
        Op::FontAddr { x } => Machine { index: (5 * (m.reg(x) % 16)) as u16, ..m }.advance(false),
        Op::Bcd { x } => {
            let (v, i) = (m.reg(x), m.index as int);
            Machine {
                memory: m.memory.update(i, v / 100).update(i + 1, (v / 10) % 10).update(
                    i + 2,
                    v % 10,
                ),
                ..m
            }.advance(false)
        },
        Op::StoreRegs { x } => Machine {
            memory: Seq::new(
                m.memory.len(),
                |a: int|
                    if m.index <= a <= m.index + x {
                        m.registers[a - m.index]
                    } else {
                        m.memory[a]
                    },
            ),
            ..m
        }.advance(false),
        Op::LoadRegs { x } => Machine {
            registers: Seq::new(
                m.registers.len(),
                |j: int|
                    if j <= x {
                        m.memory[m.index + j]
                    } else {
                        m.registers[j]
                    },
            ),
            ..m
        }.advance(false),
    }
}

/// One cycle at time `now`, with `random` as the byte a random-number
/// instruction would draw. A stopped machine stays as it is. A program
/// counter from which no word can be fetched stops the machine. A machine
/// waiting for a key only counts its timers down and checks for a key. Otherwise the
/// word at the program counter is fetched and decoded; a word that decodes to
/// nothing, or an operation that faults, is an error and changes nothing;
/// else the timers count down, the operation runs, and the machine stops if
/// the program counter has left the program.
pub open spec fn step(m: Machine, now: u64, random: u8) -> Result<Machine, ChipError> {
    if !m.running {
        Ok(m)
    } else if m.program_counter >= FETCH_LIMIT {
        Ok(Machine { running: false, ..m })
    } else if m.key_wait is Some {
        Ok(halt_check(resolve_key(tick(m, now))))
    } else {
        let w = m.fetch();
        match decode_spec(w) {
            None => Err(ChipError::InvalidOpcode { word: w, pc: m.program_counter }),
            Some(op) => match fault(m, op) {
                Some(e) => Err(e),
                None => Ok(halt_check(execute(tick(m, now), op, random))),
            },
        }
    }
}

} // verus!
