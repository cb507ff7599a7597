use vstd::prelude::*;
use crate::error::Chip8Error;
use crate::instruction::{decode, decode_spec, Instruction};
use crate::laws::lemma_cycle_preserves_wf;
use crate::keys::{KeyState, NUM_KEYS};
use crate::utils::{addition_with_overflow, concat_bytes, decimal_digits, subtract_with_overflow, to_binary_encoded_decimal};
use crate::model::{
    can_fetch, cycle_spec, execute_spec, fetched, first_pressed, opcode_at, uses_random,
    draw_collides, draw_spec, drawn_display, sprite_bit, sprite_covers, visible_rows, FLAG_REGISTER,
    Machine, initial_machine, overwrite, blank_display, FONT_SET, MEMORY_SIZE, PIXEL_HEIGHT,
    PIXEL_WIDTH, ROM_START_ADDRESS, STACK_SIZE,
};

verus! {

/// A CHIP-8 machine: memory, registers, call stack, timers and framebuffer.
pub struct Chip8 {
    memory: [u8; 4096],
    registers: [u8; 16],
    stack: [u16; 16],
    stack_pointer: usize,
    pc: u16,
    index_register: u16,
    delay_timer: u8,
    sound_timer: u8,
    display_memory: [[u32; 64]; 32],
    draw_flag: bool,
}

/// Whether the cell at row `r` and column `c` comes before the cell at row
/// `pr` and column `pc` in row-major order.
spec fn precedes(r: int, c: int, pr: int, pc: int) -> bool {
    r < pr || (r == pr && c < pc)
}

/// The framebuffer of `m` with the sprite XOR-ed onto the cells that precede
/// `(pr, pc)` only.
spec fn partly_drawn(m: Machine, x0: int, y0: int, n: int, pr: int, pc: int, r: int, c: int) -> u32 {
    if sprite_covers(m, x0, y0, n, r, c) && precedes(r, c, pr, pc) {
        m.display[r][c] ^ 1u32
    } else {
        m.display[r][c]
    }
}

/// Whether drawing the sprite on the cells that precede `(pr, pc)` turns
/// some pixel off.
spec fn collides_before(m: Machine, x0: int, y0: int, n: int, pr: int, pc: int) -> bool {
    exists|r: int, c: int|
        0 <= r < PIXEL_HEIGHT && 0 <= c < PIXEL_WIDTH && #[trigger] sprite_covers(m, x0, y0, n, r, c)
            && precedes(r, c, pr, pc) && m.display[r][c] ^ 1u32 == 0
}

/// The framebuffer array as rows of pixels.
pub open spec fn display_view(d: [[u32; 64]; 32]) -> Seq<Seq<u32>> {
    Seq::new(PIXEL_HEIGHT as nat, |r: int| d[r]@)
}

impl View for Chip8 {
    type V = Machine;

    closed spec fn view(&self) -> Machine {
        Machine {
            memory: self.memory@,
            registers: self.registers@,
            stack: self.stack@,
            stack_pointer: self.stack_pointer as nat,
            pc: self.pc,
            index_register: self.index_register,
            delay_timer: self.delay_timer,
            sound_timer: self.sound_timer,
            display: display_view(self.display_memory),
            draw_flag: self.draw_flag,
        }
    }
}

impl Chip8 {
    /// At most sixteen return addresses are on the stack, and every pixel
    /// is 0 or 1.
    #[verifier::type_invariant]
    closed spec fn inv(self) -> bool {
        &&& self.stack_pointer <= STACK_SIZE
        &&& forall|r: int, c: int|
            0 <= r < PIXEL_HEIGHT && 0 <= c < PIXEL_WIDTH ==> #[trigger] self.display_memory[r][c] <= 1
    }

    /// Gives the well-formedness of the model to verified callers; it does
    /// nothing at run time.
    pub fn lemma_wf(&self)
        ensures
            self@.wf(),
    {
        proof {
            use_type_invariant(self);
        }
    }

    /// A machine with memory, registers, stack, timers and framebuffer
    /// zeroed, the font loaded at the start of memory, and the program
    /// counter at the start address.
    pub fn new() -> (r: Chip8)
        ensures
            r@ == initial_machine(),
            r@.wf(),
    {
        let mut chip8 = Chip8 {
            memory: [0; 4096],
            registers: [0; 16],
            stack: [0; 16],
            stack_pointer: 0,
            pc: ROM_START_ADDRESS,
            index_register: 0,
            delay_timer: 0,
            sound_timer: 0,
            display_memory: [[0; 64]; 32],
            draw_flag: false,
        };
        chip8.load_fontset();
        proof {
            assert(chip8@.memory =~= initial_machine().memory);
            assert(chip8@.registers =~= initial_machine().registers);
            assert(chip8@.stack =~= initial_machine().stack);
            assert forall|r: int| 0 <= r < PIXEL_HEIGHT implies chip8@.display[r]
                =~= blank_display()[r] by {}
            assert(chip8@.display =~= blank_display());
        }
        chip8
    }

    /// Copies the font into the first 80 bytes of memory.
    fn load_fontset(&mut self)
        ensures
            final(self)@ == (Machine { memory: overwrite(old(self)@.memory, 0, FONT_SET@), ..old(self)@ }),
    {
        proof {
            use_type_invariant(&*self);
        }
        let ghost before = self.memory@;
        let ghost pre = self@;
        let mut i: usize = 0;
        while i < 80
            invariant
                i <= 80,
                self.inv(),
                self.memory@.len() == 4096,
                before.len() == 4096,
                self@ == (Machine { memory: self.memory@, ..pre }),
                forall|a: int|
                    0 <= a < 4096 ==> self.memory@[a] == if a < i {
                        FONT_SET@[a]
                    } else {
                        before[a]
                    },
            decreases 80 - i,
        {
            self.memory[i] = FONT_SET[i];
            i = i + 1;
        }
        assert(self.memory@ =~= overwrite(before, 0, FONT_SET@));
    }

    /// Copies `rom` into memory from the start address on. A program that
    /// does not fit between the start address and the end of memory is
    /// refused, and the machine is left as it was.
    pub fn load_rom(&mut self, rom: Vec<u8>) -> (r: Result<(), Chip8Error>)
        ensures
            r is Ok <==> rom@.len() <= MEMORY_SIZE - ROM_START_ADDRESS,
            r is Ok ==> final(self)@ == (Machine {
                memory: overwrite(old(self)@.memory, ROM_START_ADDRESS as int, rom@),
                ..old(self)@
            }),
            r is Err ==> r == Err::<(), Chip8Error>(Chip8Error::RomTooLarge) && final(self)@ == old(self)@,
            final(self)@.wf(),
    {
        proof {
            use_type_invariant(&*self);
        }
        let start: usize = ROM_START_ADDRESS as usize;
        if rom.len() > MEMORY_SIZE - start {
            return Err(Chip8Error::RomTooLarge);
        }
        let ghost before = self.memory@;
        let ghost pre = self@;
        let mut pos: usize = 0;
        while pos < rom.len()
            invariant
                rom.len() <= MEMORY_SIZE - start,
                start == 512,
                pos <= rom.len(),
                self.inv(),
                self.memory@.len() == 4096,
                before.len() == 4096,
                self@ == (Machine { memory: self.memory@, ..pre }),
                forall|a: int|
                    0 <= a < 4096 ==> self.memory@[a] == if start <= a < start + pos {
                        rom@[a - start]
                    } else {
                        before[a]
                    },
            decreases rom.len() - pos,
        {
            self.memory[start + pos] = rom[pos];
            pos = pos + 1;
        }
        assert(self.memory@ =~= overwrite(before, start as int, rom@));
        Ok(())
    }

    /// The program counter.
    pub fn pc(&self) -> (r: u16)
        ensures
            r == self@.pc,
    {
        self.pc
    }

    /// How many return addresses are on the stack.
    pub fn stack_pointer(&self) -> (r: usize)
        ensures
            r == self@.stack_pointer,
    {
        self.stack_pointer
    }

    /// The return-address slots of the call stack.
    pub fn stack(&self) -> (r: [u16; 16])
        ensures
            r@ == self@.stack,
    {
        self.stack
    }

    /// The registers `V0` to `VF`.
    pub fn registers(&self) -> (r: [u8; 16])
        ensures
            r@ == self@.registers,
    {
        self.registers
    }

    /// The index register `I`.
    pub fn index_register(&self) -> (r: u16)
        ensures
            r == self@.index_register,
    {
        self.index_register
    }

    /// The delay timer.
    pub fn delay_timer(&self) -> (r: u8)
        ensures
            r == self@.delay_timer,
    {
        self.delay_timer
    }

    /// The sound timer; the host plays a tone while it is not zero.
    pub fn sound_timer(&self) -> (r: u8)
        ensures
            r == self@.sound_timer,
    {
        self.sound_timer
    }

    /// Whether the last cycle changed the framebuffer.
    pub fn draw_flag(&self) -> (r: bool)
        ensures
            r == self@.draw_flag,
    {
        self.draw_flag
    }

    /// The memory.
    pub fn memory(&self) -> (r: &[u8; 4096])
        ensures
            r@ == self@.memory,
    {
        &self.memory
    }

    /// The framebuffer, as 32 rows of 64 pixels; `1` is lit, `0` dark.
    pub fn display_memory(&self) -> (r: &[[u32; 64]; 32])
        ensures
            display_view(*r) == self@.display,
    {
        &self.display_memory
    }

    /// Sets the pixel at `row` and `col` to `value`, 0 or 1; a position off
    /// the screen leaves the machine as it was.
    pub fn set_pixel(&mut self, row: usize, col: usize, value: u32)
        requires
            value <= 1,
        ensures
            row < PIXEL_HEIGHT && col < PIXEL_WIDTH ==> final(self)@ == (Machine {
                display: old(self)@.display.update(
                    row as int,
                    old(self)@.display[row as int].update(col as int, value),
                ),
                ..old(self)@
            }),
            !(row < PIXEL_HEIGHT && col < PIXEL_WIDTH) ==> final(self)@ == old(self)@,
            final(self)@.wf(),
    {
        proof {
            use_type_invariant(&*self);
        }
        if row < PIXEL_HEIGHT && col < PIXEL_WIDTH {
            self.display_memory[row][col] = value;
            assert(display_view(self.display_memory) =~= old(self)@.display.update(
                row as int,
                old(self)@.display[row as int].update(col as int, value),
            ));
        }
    }

    /// XORs the `h`-row sprite read from memory at the index register onto
    /// the framebuffer at `(Vx mod 64, Vy mod 32)`, and sets `VF` to whether
    /// a pixel was turned off.
    fn draw_sprite(&mut self, vx: u8, vy: u8, h: u8) -> (r: Result<(), Chip8Error>)
        requires
            vx < 16,
            vy < 16,
            h < 16,
        ensures
            draw_spec(old(self)@, vx, vy, h) == (match r {
                Ok(_) => Ok(final(self)@),
                Err(e) => Err(e),
            }),
            r is Err ==> final(self)@ == old(self)@,
    {
        proof {
            use_type_invariant(&*self);
        }
        let x_pos: usize = self.registers[vx as usize] as usize % PIXEL_WIDTH;
        let y_pos: usize = self.registers[vy as usize] as usize % PIXEL_HEIGHT;
        let rows: usize = if h as usize + y_pos <= PIXEL_HEIGHT {
            h as usize
        } else {
            PIXEL_HEIGHT - y_pos
        };
        let base: usize = self.index_register as usize;
        if rows > 0 && base + rows > MEMORY_SIZE {
            return Err(Chip8Error::MemoryOutOfBounds);
        }
        let cols: usize = if x_pos + 8 <= PIXEL_WIDTH {
            8
        } else {
            PIXEL_WIDTH - x_pos
        };
        let ghost m = self@;
        let ghost x0 = x_pos as int;
        let ghost y0 = y_pos as int;
        let ghost n = h as int;
        assert(rows == visible_rows(y0, n));
        let mut collided = false;
        let mut irow: usize = 0;
        while irow < rows
            invariant
                self.inv(),
                self@ == (Machine { display: self@.display, ..m }),
                m.memory.len() == MEMORY_SIZE,
                m.display == display_view(old(self).display_memory),
                x_pos < PIXEL_WIDTH,
                y_pos < PIXEL_HEIGHT,
                x0 == x_pos,
                y0 == y_pos,
                rows == visible_rows(y0, n),
                y_pos + rows <= PIXEL_HEIGHT,
                base == m.index_register,
                rows > 0 ==> base + rows <= MEMORY_SIZE,
                cols == if x_pos + 8 <= PIXEL_WIDTH { 8 } else { PIXEL_WIDTH - x_pos },
                irow <= rows,
                forall|r: int, c: int|
                    0 <= r < PIXEL_HEIGHT && 0 <= c < PIXEL_WIDTH ==> #[trigger] self.display_memory[r][c]
                        == partly_drawn(m, x0, y0, n, y0 + irow, 0, r, c),
                collided == collides_before(m, x0, y0, n, y0 + irow, 0),
            decreases rows - irow,
        {
            let pixel = self.memory[base + irow];
            let mut icol: usize = 0;
            while icol < cols
                invariant
                    self.inv(),
                    self@ == (Machine { display: self@.display, ..m }),
                    m.memory.len() == MEMORY_SIZE,
                    m.display == display_view(old(self).display_memory),
                    x_pos < PIXEL_WIDTH,
                    y_pos < PIXEL_HEIGHT,
                    x0 == x_pos,
                    y0 == y_pos,
                    rows == visible_rows(y0, n),
                    y_pos + rows <= PIXEL_HEIGHT,
                    base == m.index_register,
                    rows > 0 ==> base + rows <= MEMORY_SIZE,
                    cols == if x_pos + 8 <= PIXEL_WIDTH { 8 } else { PIXEL_WIDTH - x_pos },
                    irow < rows,
                    pixel == m.memory[base + irow],
                    icol <= cols,
                    forall|r: int, c: int|
                        0 <= r < PIXEL_HEIGHT && 0 <= c < PIXEL_WIDTH ==> #[trigger] self.display_memory[r][c]
                            == partly_drawn(m, x0, y0, n, y0 + irow, x0 + icol, r, c),
                    collided == collides_before(m, x0, y0, n, y0 + irow, x0 + icol),
                decreases cols - icol,
            {
                let row = y_pos + irow;
                let col = x_pos + icol;
                let ghost pr = y0 + irow;
                let ghost pc = x0 + icol;
                assert(sprite_covers(m, x0, y0, n, row as int, col as int) == sprite_bit(pixel, icol as int));
                if pixel & (0x80u8 >> (icol as u8)) != 0 {
                    let current = self.display_memory[row][col];
                    assert(current <= 1 ==> current ^ 1 <= 1) by (bit_vector);
                    let flipped = current ^ 1;
                    self.display_memory[row][col] = flipped;
                    if flipped == 0 {
                        collided = true;
                        assert(precedes(row as int, col as int, pr, pc + 1));
                    }
                }
                proof {
                    assert forall|r: int, c: int|
                        0 <= r < PIXEL_HEIGHT && 0 <= c < PIXEL_WIDTH implies #[trigger] self.display_memory[r][c]
                            == partly_drawn(m, x0, y0, n, pr, pc + 1, r, c) by {
                        if r == row && c == col {
                        } else {
                            assert(precedes(r, c, pr, pc + 1) == precedes(r, c, pr, pc));
                        }
                    }
                    if !collided || collides_before(m, x0, y0, n, pr, pc) {
                        assert forall|r: int, c: int|
                            0 <= r < PIXEL_HEIGHT && 0 <= c < PIXEL_WIDTH && #[trigger] sprite_covers(m, x0, y0, n, r, c)
                                && precedes(r, c, pr, pc + 1) && m.display[r][c] ^ 1u32 == 0
                            implies precedes(r, c, pr, pc) || (r == row && c == col) by {}
                    }
                }
                icol = icol + 1;
            }
            proof {
                let pr = y0 + irow;
                assert forall|r: int, c: int| #[trigger] sprite_covers(m, x0, y0, n, r, c) implies
                    precedes(r, c, pr, x0 + cols) == precedes(r, c, pr + 1, 0) by {}
                assert forall|r: int, c: int|
                    0 <= r < PIXEL_HEIGHT && 0 <= c < PIXEL_WIDTH implies #[trigger] self.display_memory[r][c]
                        == partly_drawn(m, x0, y0, n, pr + 1, 0, r, c) by {
                    assert(partly_drawn(m, x0, y0, n, pr + 1, 0, r, c) == partly_drawn(m, x0, y0, n, pr, x0 + cols, r, c));
                }
                assert(collides_before(m, x0, y0, n, pr + 1, 0) == collides_before(m, x0, y0, n, pr, x0 + cols));
            }
            irow = irow + 1;
        }
        proof {
            let pr = y0 + rows;
            assert forall|r: int, c: int| #[trigger] sprite_covers(m, x0, y0, n, r, c) implies
                precedes(r, c, pr, 0) by {}
            assert(collides_before(m, x0, y0, n, pr, 0) == draw_collides(m, x0, y0, n));
        }
        self.registers[FLAG_REGISTER] = if collided {
            1
        } else {
            0
        };
        self.draw_flag = true;
        proof {
            let d = drawn_display(m, x0, y0, n);
            assert forall|r: int| 0 <= r < PIXEL_HEIGHT implies #[trigger] display_view(self.display_memory)[r] =~= d[r] by {
                assert forall|c: int| 0 <= c < PIXEL_WIDTH implies display_view(self.display_memory)[r][c] == d[r][c] by {
                    assert(self.display_memory[r][c] == partly_drawn(m, x0, y0, n, y0 + rows, 0, r, c));
                }
            }
            assert(display_view(self.display_memory) =~= d);
        }
        Ok(())
    }

    /// Turns every pixel of the framebuffer off.
    fn clear_screen(&mut self)
        ensures
            final(self)@ == (Machine { display: blank_display(), ..old(self)@ }),
    {
        proof {
            use_type_invariant(&*self);
        }
        let ghost m = self@;
        let mut row: usize = 0;
        while row < PIXEL_HEIGHT
            invariant
                self.inv(),
                self@ == (Machine { display: self@.display, ..m }),
                row <= PIXEL_HEIGHT,
                forall|r: int, c: int| 0 <= r < row && 0 <= c < PIXEL_WIDTH ==> #[trigger] self.display_memory[r][c] == 0,
            decreases PIXEL_HEIGHT - row,
        {
            let mut col: usize = 0;
            while col < PIXEL_WIDTH
                invariant
                    self.inv(),
                    self@ == (Machine { display: self@.display, ..m }),
                    row < PIXEL_HEIGHT,
                    col <= PIXEL_WIDTH,
                    forall|r: int, c: int|
                        (0 <= r < row && 0 <= c < PIXEL_WIDTH) || (r == row && 0 <= c < col) ==> #[trigger] self.display_memory[r][c] == 0,
                decreases PIXEL_WIDTH - col,
            {
                self.display_memory[row][col] = 0;
                col = col + 1;
            }
            row = row + 1;
        }
        proof {
            assert forall|r: int| 0 <= r < PIXEL_HEIGHT implies #[trigger] display_view(self.display_memory)[r] =~= blank_display()[r] by {
                assert forall|c: int| 0 <= c < PIXEL_WIDTH implies display_view(self.display_memory)[r][c] == blank_display()[r][c] by {
                    assert(self.display_memory[r][c] == 0);
                }
            }
            assert(display_view(self.display_memory) =~= blank_display());
        }
    }

    /// Stores the lowest-numbered pressed key in register `x`; with no key
    /// pressed, moves the program counter back onto this instruction so that
    /// it runs again next cycle.
    fn wait_for_keypress(&mut self, x: usize, key_state: &KeyState)
        requires
            x < 16,
            old(self)@.pc >= 2,
        ensures
            final(self)@ == (match first_pressed(key_state@, 16) {
                Some(k) => old(self)@.with_register(x as int, k as u8),
                None => Machine { pc: (old(self)@.pc - 2) as u16, ..old(self)@ },
            }),
    {
        proof {
            use_type_invariant(&*self);
        }
        let mut found: Option<u8> = None;
        let mut k: u8 = 0;
        while (k as usize) < NUM_KEYS
            invariant
                k <= 16,
                first_pressed(key_state@, k as nat) == (match found {
                    Some(v) => Some(v as nat),
                    None => None::<nat>,
                }),
                found matches Some(v) ==> v < 16,
            decreases 16 - k,
        {
            if found.is_none() && key_state.keys[k as usize] {
                found = Some(k);
            }
            k = k + 1;
        }
        match found {
            Some(key) => {
                self.registers[x] = key;
            },
            None => {
                self.pc = self.pc - 2;
            },
        }
    }

    /// Stores the three decimal digits of `Vx` at `I`, `I + 1` and `I + 2`.
    fn store_bcd(&mut self, x: usize) -> (r: Result<(), Chip8Error>)
        requires
            x < 16,
        ensures
            execute_spec(old(self)@, Instruction::StoreBcd { x: x as u8 }, Seq::empty(), 0) == (match r {
                Ok(_) => Ok(final(self)@),
                Err(e) => Err(e),
            }),
            r is Err ==> final(self)@ == old(self)@,
    {
        proof {
            use_type_invariant(&*self);
        }
        let base: usize = self.index_register as usize;
        if base + 3 > MEMORY_SIZE {
            return Err(Chip8Error::MemoryOutOfBounds);
        }
        let digits = to_binary_encoded_decimal(self.registers[x], 3);
        let ghost m = self@;
        let ghost before = self.memory@;
        let mut i: usize = 0;
        while i < 3
            invariant
                self.inv(),
                self@ == (Machine { memory: self.memory@, ..m }),
                before == m.memory,
                before.len() == MEMORY_SIZE,
                base == m.index_register,
                base + 3 <= MEMORY_SIZE,
                x < 16,
                m.registers.len() == 16,
                digits@ == decimal_digits(m.registers[x as int] as nat, 3),
                digits@.len() == 3,
                i <= 3,
                forall|a: int|
                    0 <= a < MEMORY_SIZE ==> self.memory@[a] == if base <= a < base + i {
                        digits@[a - base]
                    } else {
                        before[a]
                    },
            decreases 3 - i,
        {
            self.memory[base + i] = digits[i];
            i = i + 1;
        }
        assert(self.memory@ =~= overwrite(before, base as int, digits@));
        Ok(())
    }

    /// Stores `V0` to `Vx` in memory from `I` on; `I` is left as it was.
    fn store_registers(&mut self, x: usize) -> (r: Result<(), Chip8Error>)
        requires
            x < 16,
        ensures
            execute_spec(old(self)@, Instruction::StoreRegisters { x: x as u8 }, Seq::empty(), 0) == (match r {
                Ok(_) => Ok(final(self)@),
                Err(e) => Err(e),
            }),
            r is Err ==> final(self)@ == old(self)@,
    {
        proof {
            use_type_invariant(&*self);
        }
        let base: usize = self.index_register as usize;
        if base + x >= MEMORY_SIZE {
            return Err(Chip8Error::MemoryOutOfBounds);
        }
        let ghost m = self@;
        let ghost before = self.memory@;
        let mut i: usize = 0;
        while i <= x
            invariant
                self.inv(),
                self@ == (Machine { memory: self.memory@, ..m }),
                before == m.memory,
                before.len() == MEMORY_SIZE,
                base == m.index_register,
                base + x < MEMORY_SIZE,
                x < 16,
                i <= x + 1,
                forall|a: int|
                    0 <= a < MEMORY_SIZE ==> self.memory@[a] == if base <= a < base + i {
                        m.registers[a - base]
                    } else {
                        before[a]
                    },
            decreases x + 1 - i,
        {
            self.memory[base + i] = self.registers[i];
            i = i + 1;
        }
        assert(self.memory@ =~= overwrite(before, base as int, m.registers.subrange(0, x + 1)));
        Ok(())
    }

    /// Loads `V0` to `Vx` from memory from `I` on; `I` is left as it was.
    fn load_registers(&mut self, x: usize) -> (r: Result<(), Chip8Error>)
        requires
            x < 16,
        ensures
            execute_spec(old(self)@, Instruction::LoadRegisters { x: x as u8 }, Seq::empty(), 0) == (match r {
                Ok(_) => Ok(final(self)@),
                Err(e) => Err(e),
            }),
            r is Err ==> final(self)@ == old(self)@,
    {
        proof {
            use_type_invariant(&*self);
        }
        let base: usize = self.index_register as usize;
        if base + x >= MEMORY_SIZE {
            return Err(Chip8Error::MemoryOutOfBounds);
        }
        let ghost m = self@;
        let ghost before = self.registers@;
        let mut i: usize = 0;
        while i <= x
            invariant
                self.inv(),
                self@ == (Machine { registers: self.registers@, ..m }),
                before == m.registers,
                before.len() == 16,
                m.memory.len() == MEMORY_SIZE,
                base == m.index_register,
                base + x < MEMORY_SIZE,
                x < 16,
                i <= x + 1,
                forall|a: int|
                    0 <= a < 16 ==> self.registers@[a] == if a < i {
                        m.memory[base + a]
                    } else {
                        before[a]
                    },
            decreases x + 1 - i,
        {
            self.registers[i] = self.memory[base + i];
            i = i + 1;
        }
        assert(self.registers@ =~= overwrite(before, 0, m.memory.subrange(base as int, base + x + 1)));
        Ok(())
    }

    /// Applies `ins` to the machine, whose program counter already points
    /// past it. On an error the machine is left as it was.
    #[verifier::spinoff_prover]
    fn execute(&mut self, ins: Instruction, key_state: &KeyState, rnd: u8) -> (r: Result<(), Chip8Error>)
        requires
            ins.wf(),
            2 <= old(self)@.pc <= MEMORY_SIZE + 1,
        ensures
            execute_spec(old(self)@, ins, key_state@, rnd) == (match r {
                Ok(_) => Ok(final(self)@),
                Err(e) => Err(e),
            }),
            r is Err ==> final(self)@ == old(self)@,
    {
        proof {
            use_type_invariant(&*self);
        }
        match ins {
            Instruction::ClearScreen => {
                self.clear_screen();
                proof {
                    use_type_invariant(&*self);
                }
                self.draw_flag = true;
            },
            Instruction::Return => {
                if self.stack_pointer == 0 {
                    return Err(Chip8Error::StackUnderflow);
                }
                self.stack_pointer = self.stack_pointer - 1;
                self.pc = self.stack[self.stack_pointer];
            },
            Instruction::Jump { addr } => {
                self.pc = addr;
            },
            Instruction::Call { addr } => {
                if self.stack_pointer >= STACK_SIZE {
                    return Err(Chip8Error::StackOverflow);
                }
                self.stack[self.stack_pointer] = self.pc;
                self.stack_pointer = self.stack_pointer + 1;
                self.pc = addr;
            },
            Instruction::SkipIfEqual { x, nn } => {
                if self.registers[x as usize] == nn {
                    self.pc = self.pc + 2;
                }
            },
            Instruction::SkipIfNotEqual { x, nn } => {
                if self.registers[x as usize] != nn {
                    self.pc = self.pc + 2;
                }
            },
            Instruction::SkipIfRegistersEqual { x, y } => {
                if self.registers[x as usize] == self.registers[y as usize] {
                    self.pc = self.pc + 2;
                }
            },
            Instruction::Load { x, nn } => {
                self.registers[x as usize] = nn;
            },
            Instruction::AddConst { x, nn } => {
                let res = addition_with_overflow(self.registers[x as usize], nn);
                self.registers[x as usize] = res.val;
            },
            Instruction::Copy { x, y } => {
                self.registers[x as usize] = self.registers[y as usize];
            },
            Instruction::Or { x, y } => {
                self.registers[x as usize] = self.registers[x as usize] | self.registers[y as usize];
            },
            Instruction::And { x, y } => {
                self.registers[x as usize] = self.registers[x as usize] & self.registers[y as usize];
            },
            Instruction::Xor { x, y } => {
                self.registers[x as usize] = self.registers[x as usize] ^ self.registers[y as usize];
            },
            Instruction::Add { x, y } => {
                let res = addition_with_overflow(self.registers[x as usize], self.registers[y as usize]);
                self.registers[x as usize] = res.val;
                self.registers[FLAG_REGISTER] = if res.overflowed {
                    1
                } else {
                    0
                };
            },
            Instruction::Sub { x, y } => {
                let res = subtract_with_overflow(self.registers[x as usize], self.registers[y as usize]);
                self.registers[x as usize] = res.val;
                self.registers[FLAG_REGISTER] = if res.overflowed {
                    0
                } else {
                    1
                };
            },
            Instruction::ShiftRight { x } => {
                let vx = self.registers[x as usize];
                assert(vx & 1 == vx % 2 && vx >> 1 == vx / 2) by (bit_vector);
                self.registers[FLAG_REGISTER] = vx & 1;
                self.registers[x as usize] = vx >> 1;
            },
            Instruction::SubReverse { x, y } => {
                let res = subtract_with_overflow(self.registers[y as usize], self.registers[x as usize]);
                self.registers[x as usize] = res.val;
                self.registers[FLAG_REGISTER] = if res.overflowed {
                    0
                } else {
                    1
                };
            },
            Instruction::ShiftLeft { x } => {
                let vx = self.registers[x as usize];
                assert((vx & 0x80 != 0) == (vx >= 128)) by (bit_vector);
                self.registers[FLAG_REGISTER] = if vx & 0x80 != 0 {
                    1
                } else {
                    0
                };
                self.registers[x as usize] = ((vx as u16 * 2) % 256) as u8;
            },
            Instruction::SkipIfRegistersNotEqual { x, y } => {
                if self.registers[x as usize] != self.registers[y as usize] {
                    self.pc = self.pc + 2;
                }
            },
            Instruction::SetIndex { addr } => {
                self.index_register = addr;
            },
            Instruction::JumpOffset { addr } => {
                self.pc = self.registers[0] as u16 + addr;
            },
            Instruction::Random { x, nn } => {
                self.registers[x as usize] = rnd & nn;
            },
            Instruction::Draw { x, y, n } => {
                return self.draw_sprite(x, y, n);
            },
            Instruction::SkipIfKeyPressed { x } => {
                if key_state.is_pressed(self.registers[x as usize]) {
                    self.pc = self.pc + 2;
                }
            },
            Instruction::SkipIfKeyReleased { x } => {
                let key = self.registers[x as usize];
                if (key as usize) < NUM_KEYS && !key_state.is_pressed(key) {
                    self.pc = self.pc + 2;
                }
            },
            Instruction::LoadDelayTimer { x } => {
                self.registers[x as usize] = self.delay_timer;
            },
            Instruction::WaitForKey { x } => {
                self.wait_for_keypress(x as usize, key_state);
            },
            Instruction::SetDelayTimer { x } => {
                self.delay_timer = self.registers[x as usize];
            },
            Instruction::SetSoundTimer { x } => {
                self.sound_timer = self.registers[x as usize];
            },
            Instruction::AddToIndex { x } => {
                self.index_register = ((self.index_register as u32 + self.registers[x as usize] as u32)
                    % 65536) as u16;
            },
            Instruction::LoadFontChar { x } => {
                self.index_register = self.registers[x as usize] as u16 * 5;
            },
            Instruction::StoreBcd { x } => {
                return self.store_bcd(x as usize);
            },
            Instruction::StoreRegisters { x } => {
                return self.store_registers(x as usize);
            },
            Instruction::LoadRegisters { x } => {
                return self.load_registers(x as usize);
            },
        }
        Ok(())
    }

    /// Reads the two bytes at the program counter as one opcode, high byte
    /// first, and moves the program counter past them.
    fn get_next_opcode(&mut self) -> (r: u16)
        requires
            can_fetch(old(self)@),
        ensures
            r == opcode_at(old(self)@),
            final(self)@ == (Machine { pc: (old(self)@.pc + 2) as u16, ..old(self)@ }),
    {
        proof {
            use_type_invariant(&*self);
        }
        let b1: u8 = self.memory[self.pc as usize];
        self.pc = self.pc + 1;
        let b2: u8 = self.memory[self.pc as usize];
        self.pc = self.pc + 1;
        concat_bytes(b1, b2)
    }

    /// Decodes `op` and executes it; a word that matches no instruction is
    /// refused with its value, and the machine is left as it was.
    fn handle_opcode(&mut self, op: u16, key_state: &KeyState, rnd: u8) -> (r: Result<(), Chip8Error>)
        requires
            2 <= old(self)@.pc <= MEMORY_SIZE + 1,
        ensures
            match decode_spec(op) {
                None => r == Err::<(), Chip8Error>(Chip8Error::InvalidOpCode(op)),
                Some(ins) => execute_spec(old(self)@, ins, key_state@, rnd) == (match r {
                    Ok(_) => Ok(final(self)@),
                    Err(e) => Err(e),
                }),
            },
            r is Err ==> final(self)@ == old(self)@,
    {
        match decode(op) {
            Some(ins) => self.execute(ins, key_state, rnd),
            None => Err(Chip8Error::InvalidOpCode(op)),
        }
    }

    /// Runs one cycle with `rnd` as the random byte: fetches the opcode at
    /// the program counter, executes it, and counts both timers down by one
    /// where they are not zero. Returns whether the framebuffer changed, or
    /// the error that stopped the machine.
    pub fn exec_cycle_with(&mut self, key_state: &KeyState, rnd: u8) -> (r: Result<bool, Chip8Error>)
        ensures
            (final(self)@, r) == cycle_spec(old(self)@, key_state@, rnd),
            final(self)@.wf(),
    {
        proof {
            use_type_invariant(&*self);
            lemma_cycle_preserves_wf(self@, key_state@, rnd);
        }
        if self.pc as usize + 1 >= MEMORY_SIZE {
            return Err(Chip8Error::MemoryOutOfBounds);
        }
        self.draw_flag = false;
        let opcode = self.get_next_opcode();
        assert(self@ == fetched(old(self)@));
        match self.handle_opcode(opcode, key_state, rnd) {
            Ok(_) => {},
            Err(e) => {
                return Err(e);
            },
        }
        proof {
            use_type_invariant(&*self);
        }
        if self.delay_timer > 0 {
            self.delay_timer = self.delay_timer - 1;
        }
        if self.sound_timer > 0 {
            self.sound_timer = self.sound_timer - 1;
        }
        Ok(self.draw_flag)
    }

    /// Runs one cycle, drawing a fresh random byte for `Cxnn`: the outcome is
    /// that of `exec_cycle_with` for some byte, and for every other
    /// instruction it does not depend on the byte.
    pub fn exec_cycle(&mut self, key_state: &KeyState) -> (r: Result<bool, Chip8Error>)
        ensures
            exists|rnd: u8| (final(self)@, r) == #[trigger] cycle_spec(old(self)@, key_state@, rnd),
            !uses_random(old(self)@) ==> (final(self)@, r) == cycle_spec(old(self)@, key_state@, 0),
            final(self)@.wf(),
    {
        let rnd = random_byte();
        let r = self.exec_cycle_with(key_state, rnd);
        proof {
            if !uses_random(old(self)@) {
                lemma_cycle_ignores_random(old(self)@, key_state@, rnd);
            }
        }
        r
    }
}

/// Only `Cxnn` reads the random byte.
proof fn lemma_cycle_ignores_random(m: Machine, keys: Seq<bool>, rnd: u8)
    requires
        !uses_random(m),
    ensures
        cycle_spec(m, keys, rnd) == cycle_spec(m, keys, 0),
{
}

/// Relies on `rand::random::<u8>`, which draws a byte from the thread-local
/// generator; any byte may come back. It panics only where the generator
/// cannot be seeded from the operating system.
#[verifier::external_body]
fn random_byte() -> (r: u8) {
    rand::random::<u8>()
}

} // verus!
