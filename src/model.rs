use vstd::prelude::*;
use crate::error::Chip8Error;
use crate::instruction::{Instruction, decode_spec};
use crate::utils::decimal_digits;

verus! {

/// Columns of the framebuffer.
pub const PIXEL_WIDTH: usize = 64;

/// Rows of the framebuffer.
pub const PIXEL_HEIGHT: usize = 32;

/// Bytes of memory.
pub const MEMORY_SIZE: usize = 4096;

/// Where programs are loaded, and where execution starts.
pub const ROM_START_ADDRESS: u16 = 0x200;

/// Depth of the call stack.
pub const STACK_SIZE: usize = 16;

/// Index of the flag register `VF`.
pub const FLAG_REGISTER: usize = 15;

/// The sixteen hexadecimal digit glyphs, five rows of four pixels each,
/// kept at the start of memory.
pub const FONT_SET: [u8; 80] = [
    0xF0, 0x90, 0x90, 0x90, 0xF0,
    0x20, 0x60, 0x20, 0x20, 0x70,
    0xF0, 0x10, 0xF0, 0x80, 0xF0,
    0xF0, 0x10, 0xF0, 0x10, 0xF0,
    0x90, 0x90, 0xF0, 0x10, 0x10,
    0xF0, 0x80, 0xF0, 0x10, 0xF0,
    0xF0, 0x80, 0xF0, 0x90, 0xF0,
    0xF0, 0x10, 0x20, 0x40, 0x40,
    0xF0, 0x90, 0xF0, 0x90, 0xF0,
    0xF0, 0x90, 0xF0, 0x10, 0xF0,
    0xF0, 0x90, 0xF0, 0x90, 0x90,
    0xE0, 0x90, 0xE0, 0x90, 0xE0,
    0xF0, 0x80, 0x80, 0x80, 0xF0,
    0xE0, 0x90, 0x90, 0x90, 0xE0,
    0xF0, 0x80, 0xF0, 0x80, 0xF0,
    0xF0, 0x80, 0xF0, 0x80, 0x80,
];

/// The abstract state of the machine.
pub struct Machine {
    pub memory: Seq<u8>,
    pub registers: Seq<u8>,
    pub stack: Seq<u16>,
    pub stack_pointer: nat,
    pub pc: u16,
    pub index_register: u16,
    pub delay_timer: u8,
    pub sound_timer: u8,
    /// The framebuffer as rows of pixels.
    pub display: Seq<Seq<u32>>,
    /// Whether the framebuffer was touched by the current cycle.
    pub draw_flag: bool,
}

/// `s` with the elements from position `at` on replaced by `data`.
pub open spec fn overwrite<T>(s: Seq<T>, at: int, data: Seq<T>) -> Seq<T> {
    Seq::new(s.len(), |a: int| if at <= a < at + data.len() { data[a - at] } else { s[a] })
}

/// A framebuffer with every pixel off.
pub open spec fn blank_display() -> Seq<Seq<u32>> {
    Seq::new(PIXEL_HEIGHT as nat, |r: int| Seq::new(PIXEL_WIDTH as nat, |c: int| 0u32))
}

/// The state of a freshly created machine: everything zero but the font at
/// the start of memory, and the program counter at the start address.
pub open spec fn initial_machine() -> Machine {
    Machine {
        memory: overwrite(Seq::new(MEMORY_SIZE as nat, |a: int| 0u8), 0, FONT_SET@),
        registers: Seq::new(16, |i: int| 0u8),
        stack: Seq::new(STACK_SIZE as nat, |i: int| 0u16),
        stack_pointer: 0,
        pc: ROM_START_ADDRESS,
        index_register: 0,
        delay_timer: 0,
        sound_timer: 0,
        display: blank_display(),
        draw_flag: false,
    }
}

/// Whether sprite byte `b` has its pixel at column `i` set, column `0` being
/// the most significant bit.
pub open spec fn sprite_bit(b: u8, i: int) -> bool {
    b & (0x80u8 >> (i as u8)) != 0
}

/// The number of rows of an `n`-row sprite at row `y0` that lie on screen.
pub open spec fn visible_rows(y0: int, n: int) -> int {
    if y0 + n <= PIXEL_HEIGHT {
        n
    } else {
        PIXEL_HEIGHT - y0
    }
}

/// Whether the `n`-row sprite at `(x0, y0)`, read from memory at the index
/// register, has a set pixel on the cell at row `r` and column `c`. Rows and
/// columns past the edges are dropped, not wrapped.
pub open spec fn sprite_covers(m: Machine, x0: int, y0: int, n: int, r: int, c: int) -> bool {
    &&& y0 <= r < y0 + visible_rows(y0, n)
    &&& x0 <= c < x0 + 8
    &&& c < PIXEL_WIDTH
    &&& sprite_bit(m.memory[m.index_register + (r - y0)], c - x0)
}

/// The framebuffer after the sprite is XOR-ed onto it.
pub open spec fn drawn_display(m: Machine, x0: int, y0: int, n: int) -> Seq<Seq<u32>> {
    Seq::new(
        PIXEL_HEIGHT as nat,
        |r: int|
            Seq::new(
                PIXEL_WIDTH as nat,
                |c: int|
                    if sprite_covers(m, x0, y0, n, r, c) {
                        m.display[r][c] ^ 1u32
                    } else {
                        m.display[r][c]
                    },
            ),
    )
}

/// Whether drawing the sprite turns some pixel off.
pub open spec fn draw_collides(m: Machine, x0: int, y0: int, n: int) -> bool {
    exists|r: int, c: int|
        0 <= r < PIXEL_HEIGHT && 0 <= c < PIXEL_WIDTH && #[trigger] sprite_covers(m, x0, y0, n, r, c)
            && m.display[r][c] ^ 1u32 == 0
}

/// The lowest-numbered key among the first `n` that is held down.
pub open spec fn first_pressed(keys: Seq<bool>, n: nat) -> Option<nat>
    decreases n,
{
    if n == 0 {
        None
    } else {
        match first_pressed(keys, (n - 1) as nat) {
            Some(k) => Some(k),
            None => if keys[n - 1] {
                Some((n - 1) as nat)
            } else {
                None
            },
        }
    }
}

impl Machine {
    /// Register `i` set to `v`.
    pub open spec fn with_register(self, i: int, v: u8) -> Machine {
        Machine { registers: self.registers.update(i, v), ..self }
    }

    /// The next instruction skipped when `cond` holds.
    pub open spec fn skip_if(self, cond: bool) -> Machine {
        if cond {
            Machine { pc: (self.pc + 2) as u16, ..self }
        } else {
            self
        }
    }

    /// The register file has sixteen registers, the stack sixteen slots with
    /// at most sixteen in use, memory 4096 bytes, and the framebuffer
    /// 32 rows of 64 pixels, each 0 or 1.
    pub open spec fn wf(self) -> bool {
        &&& self.memory.len() == MEMORY_SIZE
        &&& self.registers.len() == 16
        &&& self.stack.len() == STACK_SIZE
        &&& self.stack_pointer <= STACK_SIZE
        &&& self.display.len() == PIXEL_HEIGHT
        &&& forall|r: int| 0 <= r < PIXEL_HEIGHT ==> (#[trigger] self.display[r]).len() == PIXEL_WIDTH
        &&& forall|r: int, c: int|
            0 <= r < PIXEL_HEIGHT && 0 <= c < PIXEL_WIDTH ==> #[trigger] self.display[r][c] <= 1
    }
}

/// The effect of `Dxyn` on `m`. Only the sprite rows that lie on screen are
/// read, so the draw fails only when one of those rows lies past the end of
/// memory.
pub open spec fn draw_spec(m: Machine, x: u8, y: u8, n: u8) -> Result<Machine, Chip8Error> {
    let x0 = m.registers[x as int] as int % PIXEL_WIDTH as int;
    let y0 = m.registers[y as int] as int % PIXEL_HEIGHT as int;
    if visible_rows(y0, n as int) > 0 && m.index_register + visible_rows(y0, n as int) > MEMORY_SIZE {
        Err(Chip8Error::MemoryOutOfBounds)
    } else {
        Ok(
            Machine {
                display: drawn_display(m, x0, y0, n as int),
                registers: m.registers.update(
                    FLAG_REGISTER as int,
                    if draw_collides(m, x0, y0, n as int) {
                        1u8
                    } else {
                        0u8
                    },
                ),
                draw_flag: true,
                ..m
            },
        )
    }
}

/// The effect of executing `ins` on `m`, whose program counter already
/// points past the instruction. `keys` is the keypad snapshot and `rnd` the
/// random byte that `Cxnn` uses.
pub open spec fn execute_spec(m: Machine, ins: Instruction, keys: Seq<bool>, rnd: u8) -> Result<
    Machine,
    Chip8Error,
> {
    let v = m.registers;
    let sp = m.stack_pointer;
    let i = m.index_register as int;
    let vf = FLAG_REGISTER as int;
    match ins {
        Instruction::ClearScreen => Ok(Machine { display: blank_display(), draw_flag: true, ..m }),
        Instruction::Return => if sp == 0 {
            Err(Chip8Error::StackUnderflow)
        } else {
            Ok(Machine { stack_pointer: (sp - 1) as nat, pc: m.stack[sp - 1], ..m })
        },
        Instruction::Jump { addr } => Ok(Machine { pc: addr, ..m }),
        Instruction::Call { addr } => if sp >= STACK_SIZE {
            Err(Chip8Error::StackOverflow)
        } else {
            Ok(Machine { stack: m.stack.update(sp as int, m.pc), stack_pointer: sp + 1, pc: addr, ..m })
        },
        Instruction::SkipIfEqual { x, nn } => Ok(m.skip_if(v[x as int] == nn)),
        Instruction::SkipIfNotEqual { x, nn } => Ok(m.skip_if(v[x as int] != nn)),
        Instruction::SkipIfRegistersEqual { x, y } => Ok(m.skip_if(v[x as int] == v[y as int])),
        Instruction::Load { x, nn } => Ok(m.with_register(x as int, nn)),
        Instruction::AddConst { x, nn } => Ok(
            m.with_register(x as int, ((v[x as int] + nn) % 256) as u8),
        ),
        Instruction::Copy { x, y } => Ok(m.with_register(x as int, v[y as int])),
        Instruction::Or { x, y } => Ok(m.with_register(x as int, v[x as int] | v[y as int])),
        Instruction::And { x, y } => Ok(m.with_register(x as int, v[x as int] & v[y as int])),
        Instruction::Xor { x, y } => Ok(m.with_register(x as int, v[x as int] ^ v[y as int])),
        Instruction::Add { x, y } => Ok(
            m.with_register(x as int, ((v[x as int] + v[y as int]) % 256) as u8).with_register(
                vf,
                if v[x as int] + v[y as int] > 255 {
                    1
                } else {
                    0
                },
            ),
        ),
        Instruction::Sub { x, y } => Ok(
            m.with_register(x as int, ((v[x as int] - v[y as int]) % 256) as u8).with_register(
                vf,
                if v[x as int] < v[y as int] {
                    0
                } else {
                    1
                },
            ),
        ),
        Instruction::ShiftRight { x } => Ok(
            m.with_register(vf, v[x as int] % 2).with_register(x as int, v[x as int] / 2),
        ),
        Instruction::SubReverse { x, y } => Ok(
            m.with_register(x as int, ((v[y as int] - v[x as int]) % 256) as u8).with_register(
                vf,
                if v[y as int] < v[x as int] {
                    0
                } else {
                    1
                },
            ),
        ),
        Instruction::ShiftLeft { x } => Ok(
            m.with_register(
                vf,
                if v[x as int] >= 128 {
                    1
                } else {
                    0
                },
            ).with_register(x as int, ((v[x as int] * 2) % 256) as u8),
        ),
        Instruction::SkipIfRegistersNotEqual { x, y } => Ok(m.skip_if(v[x as int] != v[y as int])),
        Instruction::SetIndex { addr } => Ok(Machine { index_register: addr, ..m }),
        Instruction::JumpOffset { addr } => Ok(Machine { pc: (v[0] + addr) as u16, ..m }),
        Instruction::Random { x, nn } => Ok(m.with_register(x as int, rnd & nn)),
        Instruction::Draw { x, y, n } => draw_spec(m, x, y, n),
        Instruction::SkipIfKeyPressed { x } => Ok(
            m.skip_if(v[x as int] < 16 && keys[v[x as int] as int]),
        ),
        Instruction::SkipIfKeyReleased { x } => Ok(
            m.skip_if(v[x as int] < 16 && !keys[v[x as int] as int]),
        ),
        Instruction::LoadDelayTimer { x } => Ok(m.with_register(x as int, m.delay_timer)),
        Instruction::WaitForKey { x } => match first_pressed(keys, 16) {
            Some(k) => Ok(m.with_register(x as int, k as u8)),
            None => Ok(Machine { pc: (m.pc - 2) as u16, ..m }),
        },
        Instruction::SetDelayTimer { x } => Ok(Machine { delay_timer: v[x as int], ..m }),
        Instruction::SetSoundTimer { x } => Ok(Machine { sound_timer: v[x as int], ..m }),
        Instruction::AddToIndex { x } => Ok(
            Machine { index_register: ((i + v[x as int]) % 65536) as u16, ..m },
        ),
        Instruction::LoadFontChar { x } => Ok(
            Machine { index_register: (v[x as int] * 5) as u16, ..m },
        ),
        Instruction::StoreBcd { x } => if i + 3 > MEMORY_SIZE {
            Err(Chip8Error::MemoryOutOfBounds)
        } else {
            Ok(
                Machine {
                    memory: overwrite(m.memory, i, decimal_digits(v[x as int] as nat, 3)),
                    ..m
                },
            )
        },
        Instruction::StoreRegisters { x } => if i + x >= MEMORY_SIZE {
            Err(Chip8Error::MemoryOutOfBounds)
        } else {
            Ok(Machine { memory: overwrite(m.memory, i, v.subrange(0, x + 1)), ..m })
        },
        Instruction::LoadRegisters { x } => if i + x >= MEMORY_SIZE {
            Err(Chip8Error::MemoryOutOfBounds)
        } else {
            Ok(Machine { registers: overwrite(v, 0, m.memory.subrange(i, i + x + 1)), ..m })
        },
    }
}

/// Whether the two bytes at the program counter lie in memory.
pub open spec fn can_fetch(m: Machine) -> bool {
    m.pc + 1 < MEMORY_SIZE
}

/// The 16-bit word at the program counter, high byte first.
pub open spec fn opcode_at(m: Machine) -> u16 {
    (m.memory[m.pc as int] * 256 + m.memory[m.pc + 1]) as u16
}

/// `m` once its instruction is fetched: program counter past it, draw flag cleared.
pub open spec fn fetched(m: Machine) -> Machine {
    Machine { pc: (m.pc + 2) as u16, draw_flag: false, ..m }
}

/// Both timers one step nearer to zero.
pub open spec fn tick_timers(m: Machine) -> Machine {
    Machine {
        delay_timer: if m.delay_timer > 0 {
            (m.delay_timer - 1) as u8
        } else {
            0
        },
        sound_timer: if m.sound_timer > 0 {
            (m.sound_timer - 1) as u8
        } else {
            0
        },
        ..m
    }
}

/// One cycle from `m`: the state it leaves, and either whether the
/// framebuffer changed or the error that stopped it. A failed fetch leaves
/// the state as it was; an instruction that fails leaves it as fetched.
pub open spec fn cycle_spec(m: Machine, keys: Seq<bool>, rnd: u8) -> (Machine, Result<
    bool,
    Chip8Error,
>) {
    if !can_fetch(m) {
        (m, Err(Chip8Error::MemoryOutOfBounds))
    } else {
        let op = opcode_at(m);
        match decode_spec(op) {
            None => (fetched(m), Err(Chip8Error::InvalidOpCode(op))),
            Some(ins) => match execute_spec(fetched(m), ins, keys, rnd) {
                Ok(next) => (tick_timers(next), Ok(next.draw_flag)),
                Err(e) => (fetched(m), Err(e)),
            },
        }
    }
}

/// Whether the next cycle from `m` executes `Cxnn`, the one instruction
/// that uses a random byte.
pub open spec fn uses_random(m: Machine) -> bool {
    can_fetch(m) && decode_spec(opcode_at(m)) matches Some(Instruction::Random { .. })
}

} // verus!
