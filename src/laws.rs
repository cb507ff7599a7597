use vstd::prelude::*;
use crate::instruction::{decode_spec, lemma_decode_nibbles, Instruction};
use crate::model::{
    blank_display, can_fetch, cycle_spec, draw_collides, drawn_display, execute_spec, first_pressed, opcode_at,
    sprite_covers, Machine, FLAG_REGISTER, MEMORY_SIZE, PIXEL_HEIGHT, PIXEL_WIDTH,
};

verus! {

/// Every cycle keeps the machine well formed: sixteen registers, sixteen
/// stack slots with the stack pointer between 0 and 16, 4096 bytes of
/// memory and a 32 by 64 framebuffer, whether the cycle succeeds or fails.
pub proof fn lemma_cycle_preserves_wf(m: Machine, keys: Seq<bool>, rnd: u8)
    requires
        m.wf(),
    ensures
        cycle_spec(m, keys, rnd).0.wf(),
{
    if can_fetch(m) {
        let f = Machine { pc: (m.pc + 2) as u16, draw_flag: false, ..m };
        match decode_spec(opcode_at(m)) {
            Some(ins) => {
                match ins {
                    Instruction::Draw { x, y, n } => {
                        let x0 = f.registers[x as int] as int % PIXEL_WIDTH as int;
                        let y0 = f.registers[y as int] as int % PIXEL_HEIGHT as int;
                        let d = drawn_display(f, x0, y0, n as int);
                        assert forall|r: int| 0 <= r < PIXEL_HEIGHT implies (#[trigger] d[r]).len()
                            == PIXEL_WIDTH by {}
                        assert forall|r: int, c: int|
                            0 <= r < PIXEL_HEIGHT && 0 <= c < PIXEL_WIDTH implies #[trigger] d[r][c] <= 1 by {
                            let v = f.display[r][c];
                            assert(v <= 1 ==> v ^ 1u32 <= 1) by (bit_vector);
                        }
                    },
                    _ => {},
                }
            },
            None => {},
        }
    }
}

/// Drawing a sprite and then the same sprite again at the same place gives
/// back the framebuffer as it was; the second draw reports a collision
/// exactly when the sprite covers some pixel that was off before the first.
/// The position registers must not be `VF`, which the first draw overwrites.
pub proof fn lemma_draw_twice_restores(m: Machine, x: u8, y: u8, n: u8, keys: Seq<bool>, rnd: u8)
    requires
        m.wf(),
        x < 15,
        y < 15,
        n < 16,
        execute_spec(m, Instruction::Draw { x, y, n }, keys, rnd) is Ok,
    ensures
        ({
            let first = execute_spec(m, Instruction::Draw { x, y, n }, keys, rnd)->Ok_0;
            let second = execute_spec(first, Instruction::Draw { x, y, n }, keys, rnd);
            let x0 = m.registers[x as int] as int % PIXEL_WIDTH as int;
            let y0 = m.registers[y as int] as int % PIXEL_HEIGHT as int;
            &&& second is Ok
            &&& second->Ok_0.display == m.display
            &&& (second->Ok_0.registers[FLAG_REGISTER as int] == 1) == exists|r: int, c: int|
                0 <= r < PIXEL_HEIGHT && 0 <= c < PIXEL_WIDTH && #[trigger] sprite_covers(
                    m,
                    x0,
                    y0,
                    n as int,
                    r,
                    c,
                ) && m.display[r][c] == 0
        }),
{
    let first = execute_spec(m, Instruction::Draw { x, y, n }, keys, rnd)->Ok_0;
    let second = execute_spec(first, Instruction::Draw { x, y, n }, keys, rnd)->Ok_0;
    let x0 = m.registers[x as int] as int % PIXEL_WIDTH as int;
    let y0 = m.registers[y as int] as int % PIXEL_HEIGHT as int;
    assert(first.registers[x as int] == m.registers[x as int]);
    assert(first.registers[y as int] == m.registers[y as int]);
    assert forall|r: int, c: int| #[trigger] sprite_covers(first, x0, y0, n as int, r, c) == sprite_covers(
        m,
        x0,
        y0,
        n as int,
        r,
        c,
    ) by {}
    assert forall|r: int| 0 <= r < PIXEL_HEIGHT implies #[trigger] second.display[r] =~= m.display[r] by {
        assert forall|c: int| 0 <= c < PIXEL_WIDTH implies second.display[r][c] == m.display[r][c] by {
            let v = m.display[r][c];
            assert((v ^ 1u32) ^ 1u32 == v) by (bit_vector);
        }
    }
    assert(second.display =~= m.display);
    assert forall|r: int, c: int|
        0 <= r < PIXEL_HEIGHT && 0 <= c < PIXEL_WIDTH && sprite_covers(m, x0, y0, n as int, r, c) implies
        (first.display[r][c] ^ 1u32 == 0) == (m.display[r][c] == 0) by {
        let v = m.display[r][c];
        assert(((v ^ 1u32) ^ 1u32 == 0) == (v == 0)) by (bit_vector);
    }
}

/// Dumping `V0..=Vx` to memory at `I` and loading them back from there
/// leaves every register as it was.
pub proof fn lemma_store_then_load_registers(m: Machine, x: u8, keys: Seq<bool>, rnd: u8)
    requires
        m.wf(),
        x < 16,
        m.index_register + x < MEMORY_SIZE,
    ensures
        ({
            let stored = execute_spec(m, Instruction::StoreRegisters { x }, keys, rnd);
            let loaded = execute_spec(stored->Ok_0, Instruction::LoadRegisters { x }, keys, rnd);
            &&& stored is Ok
            &&& loaded is Ok
            &&& loaded->Ok_0.registers == m.registers
            &&& loaded->Ok_0.index_register == m.index_register
        }),
{
    let stored = execute_spec(m, Instruction::StoreRegisters { x }, keys, rnd)->Ok_0;
    let loaded = execute_spec(stored, Instruction::LoadRegisters { x }, keys, rnd)->Ok_0;
    assert(loaded.registers =~= m.registers);
}

/// `first_pressed` names the lowest-numbered pressed key among the first
/// `n`, and is `None` when none of them is pressed.
pub proof fn lemma_first_pressed(keys: Seq<bool>, n: nat)
    ensures
        first_pressed(keys, n) is None <==> forall|j: int| 0 <= j < n ==> !keys[j],
        first_pressed(keys, n) matches Some(k) ==> k < n && keys[k as int] && forall|j: int|
            0 <= j < k ==> !keys[j],
    decreases n,
{
    if n > 0 {
        lemma_first_pressed(keys, (n - 1) as nat);
        if first_pressed(keys, (n - 1) as nat) is None && !keys[n - 1] {
            assert forall|j: int| 0 <= j < n implies !keys[j] by {
                if j < n - 1 {
                }
            }
        }
    }
}

/// A cycle on `Fx0A` with no key pressed leaves the program counter and the
/// registers where they were, so the same instruction runs again; with a key
/// pressed it stores the lowest pressed key in `Vx` and moves on.
pub proof fn lemma_wait_for_key(m: Machine, x: u8, keys: Seq<bool>, rnd: u8)
    requires
        m.wf(),
        keys.len() == 16,
        x < 16,
        can_fetch(m),
        m.memory[m.pc as int] == 0xF0 + x,
        m.memory[m.pc + 1] == 0x0A,
    ensures
        ({
            let (next, r) = cycle_spec(m, keys, rnd);
            &&& r is Ok
            &&& (forall|k: int| 0 <= k < 16 ==> !keys[k]) ==> next.pc == m.pc && next.registers
                == m.registers
            &&& forall|k: int|
                0 <= k < 16 && keys[k] && (forall|j: int| 0 <= j < k ==> !keys[j]) ==> next.pc == m.pc
                    + 2 && next.registers == m.registers.update(x as int, k as u8)
        }),
{
    lemma_decode_nibbles(15, x as int, 0, 10);
    assert(opcode_at(m) == 15 * 4096 + x * 256 + 10);
    assert(decode_spec(opcode_at(m)) == Some(Instruction::WaitForKey { x }));
    lemma_first_pressed(keys, 16);
    assert forall|k: int|
        0 <= k < 16 && keys[k] && (forall|j: int| 0 <= j < k ==> !keys[j]) implies first_pressed(
        keys,
        16,
    ) == Some(k as nat) by {
        let f = first_pressed(keys, 16)->Some_0;
        assert(f < 16 && keys[f as int]);
        if f < k {
        } else if f > k {
        }
    }
}

/// A cycle on `00E0` turns every pixel off, moves on to the next
/// instruction, and reports a display change.
pub proof fn lemma_clear_screen_cycle(m: Machine, keys: Seq<bool>, rnd: u8)
    requires
        m.wf(),
        can_fetch(m),
        m.memory[m.pc as int] == 0x00,
        m.memory[m.pc + 1] == 0xE0,
    ensures
        ({
            let (next, r) = cycle_spec(m, keys, rnd);
            &&& r == Ok::<bool, crate::error::Chip8Error>(true)
            &&& next.display == blank_display()
            &&& next.pc == m.pc + 2
        }),
{
    lemma_decode_nibbles(0, 0, 14, 0);
    assert(opcode_at(m) == 14 * 16);
}

/// Two cycles, `Fx55` then `Fx65` with the same `x` and the index register
/// left in between, give every register back as it was. The second
/// instruction is read after the first ran, since the dump may overwrite it.
pub proof fn lemma_store_then_load_cycles(m: Machine, x: u8, keys: Seq<bool>, rnd1: u8, rnd2: u8)
    requires
        m.wf(),
        x < 16,
        m.index_register + x < MEMORY_SIZE,
        can_fetch(m),
        m.memory[m.pc as int] == 0xF0 + x,
        m.memory[m.pc + 1] == 0x55,
        can_fetch(cycle_spec(m, keys, rnd1).0),
        cycle_spec(m, keys, rnd1).0.memory[cycle_spec(m, keys, rnd1).0.pc as int] == 0xF0 + x,
        cycle_spec(m, keys, rnd1).0.memory[cycle_spec(m, keys, rnd1).0.pc + 1] == 0x65,
    ensures
        ({
            let (mid, r1) = cycle_spec(m, keys, rnd1);
            let (last, r2) = cycle_spec(mid, keys, rnd2);
            &&& r1 is Ok
            &&& r2 is Ok
            &&& last.registers == m.registers
            &&& last.index_register == m.index_register
        }),
{
    lemma_decode_nibbles(15, x as int, 5, 5);
    assert(opcode_at(m) == 15 * 4096 + x * 256 + 5 * 16 + 5);
    let mid = cycle_spec(m, keys, rnd1).0;
    assert(opcode_at(mid) == 15 * 4096 + x * 256 + 6 * 16 + 5);
    lemma_decode_nibbles(15, x as int, 6, 5);
    let last = cycle_spec(mid, keys, rnd2).0;
    assert(last.registers =~= m.registers);
}

/// Two cycles on the same `Dxyn`, twice in a row in memory, give back the
/// framebuffer as it was; the second reports a collision exactly when the
/// sprite covers some pixel that was off before the first. The position
/// registers must not be `VF`, which the first draw overwrites.
pub proof fn lemma_draw_twice_cycles(m: Machine, x: u8, y: u8, n: u8, keys: Seq<bool>, rnd1: u8, rnd2: u8)
    requires
        m.wf(),
        x < 15,
        y < 15,
        n < 16,
        m.pc + 3 < MEMORY_SIZE,
        m.memory[m.pc as int] == 0xD0 + x,
        m.memory[m.pc + 1] == y * 16 + n,
        m.memory[m.pc + 2] == 0xD0 + x,
        m.memory[m.pc + 3] == y * 16 + n,
        cycle_spec(m, keys, rnd1).1 is Ok,
    ensures
        ({
            let (mid, r1) = cycle_spec(m, keys, rnd1);
            let (last, r2) = cycle_spec(mid, keys, rnd2);
            let x0 = m.registers[x as int] as int % PIXEL_WIDTH as int;
            let y0 = m.registers[y as int] as int % PIXEL_HEIGHT as int;
            &&& r1 == Ok::<bool, crate::error::Chip8Error>(true)
            &&& r2 == Ok::<bool, crate::error::Chip8Error>(true)
            &&& last.display == m.display
            &&& (last.registers[FLAG_REGISTER as int] == 1) == exists|r: int, c: int|
                0 <= r < PIXEL_HEIGHT && 0 <= c < PIXEL_WIDTH && #[trigger] sprite_covers(
                    m,
                    x0,
                    y0,
                    n as int,
                    r,
                    c,
                ) && m.display[r][c] == 0
        }),
{
    lemma_decode_nibbles(13, x as int, y as int, n as int);
    assert(opcode_at(m) == 13 * 4096 + x * 256 + y * 16 + n);
    let f = Machine { pc: (m.pc + 2) as u16, draw_flag: false, ..m };
    let ins = Instruction::Draw { x, y, n };
    let first = execute_spec(f, ins, keys, rnd1)->Ok_0;
    let mid = cycle_spec(m, keys, rnd1).0;
    assert(opcode_at(mid) == opcode_at(m));
    let g = Machine { pc: (mid.pc + 2) as u16, draw_flag: false, ..mid };
    let x0 = m.registers[x as int] as int % PIXEL_WIDTH as int;
    let y0 = m.registers[y as int] as int % PIXEL_HEIGHT as int;
    lemma_draw_twice_restores(f, x, y, n, keys, rnd1);
    assert(g.registers == first.registers && g.memory == first.memory && g.display == first.display
        && g.index_register == first.index_register);
    assert forall|r: int, c: int| #[trigger] sprite_covers(g, x0, y0, n as int, r, c) == sprite_covers(
        first,
        x0,
        y0,
        n as int,
        r,
        c,
    ) by {}
    assert forall|r: int, c: int| #[trigger] sprite_covers(f, x0, y0, n as int, r, c) == sprite_covers(
        m,
        x0,
        y0,
        n as int,
        r,
        c,
    ) by {}
    assert forall|r: int| 0 <= r < PIXEL_HEIGHT implies #[trigger] drawn_display(g, x0, y0, n as int)[r]
        =~= drawn_display(first, x0, y0, n as int)[r] by {}
    assert(drawn_display(g, x0, y0, n as int) =~= drawn_display(first, x0, y0, n as int));
    assert(draw_collides(g, x0, y0, n as int) == draw_collides(first, x0, y0, n as int));
    let second = execute_spec(first, ins, keys, rnd2)->Ok_0;
    let last = cycle_spec(mid, keys, rnd2).0;
    assert(last.display == second.display);
    assert(last.registers == second.registers);
}

} // verus!
