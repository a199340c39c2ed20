use vstd::prelude::*;

use crate::model::{
    cycle_spec, execute, family_of, fetchable, first_pressed, initial_memory, is_control_flow,
    loaded_memory, n_of, nn_of, nnn_of, sprite_bit, x_of, y_of, CpuState, MEMORY_SIZE,
    PROGRAM_START,
};

verus! {

/// The operand fields of an instruction lie in their ranges: register numbers
/// and the low nibble below 16, the address below 4096.
pub proof fn lemma_fields(op: u16)
    ensures
        0 <= x_of(op) < 16,
        0 <= y_of(op) < 16,
        0 <= n_of(op) < 16,
        nnn_of(op) < 4096,
        nn_of(op) as u16 == op & 0x00FFu16,
{
    assert((op & 0x0F00u16) >> 8u16 < 16) by (bit_vector);
    assert((op & 0x00F0u16) >> 4u16 < 16) by (bit_vector);
    assert(op & 0x000Fu16 < 16) by (bit_vector);
    assert(op & 0x0FFFu16 < 4096) by (bit_vector);
    assert(op & 0x00FFu16 < 256) by (bit_vector);
}

/// Every instruction that succeeds on a well-formed machine leaves it well-formed.
pub proof fn lemma_execute_preserves_wf(s: CpuState, rnd: u8)
    requires
        s.wf(),
        fetchable(s.pc),
        !s.keypad_waiting,
    ensures
        execute(s, rnd) matches Ok(t) ==> t.wf(),
{
    lemma_fields(s.opcode);
    assert forall|a: u8, m: u8, sh: u8| a <= 1 implies #[trigger] (a ^ ((m >> sh) & 1u8)) <= 1 by {
        assert(a <= 1 ==> (a ^ ((m >> sh) & 1u8)) <= 1) by (bit_vector);
    }
    match execute(s, rnd) {
        Ok(t) => {
            assert forall|r: int, c: int| 0 <= r < 32 && 0 <= c < 64 implies #[trigger] t.gfx[r][c] <= 1 by {
            }
            assert forall|r: int| 0 <= r < 32 implies #[trigger] t.gfx[r].len() == 64 by {
            }
            assert(t.memory.len() == 4096);
            assert(t.v.len() == 16);
            assert(t.stack.len() == 16);
            assert(t.sp <= 16);
            assert(t.keypad_register < 16);
            assert(t.keypad_waiting ==> fetchable(t.pc));
        },
        Err(_) => {},
    }
}

/// Row `r` holds sprite row `d` drawn from height `v` exactly when `r` is `v + d` wrapped.
pub proof fn lemma_wrap_row(r: int, v: int, d: int)
    requires
        0 <= r < 32,
        0 <= v,
        0 <= d < 32,
    ensures
        ((r - v) % 32 == d) == (r == (v + d) % 32),
{
}

/// Column `c` holds sprite column `d` drawn from `v` exactly when `c` is `v + d` wrapped.
pub proof fn lemma_wrap_col(c: int, v: int, d: int)
    requires
        0 <= c < 64,
        0 <= v,
        0 <= d < 64,
    ensures
        ((c - v) % 64 == d) == (c == (v + d) % 64),
{
}

/// The register fields are the second and third nibbles of the instruction:
/// masking before shifting selects bits 8..11 and 4..7.
pub proof fn lemma_register_fields(op: u16)
    ensures
        x_of(op) == (op as int / 256) % 16,
        y_of(op) == (op as int / 16) % 16,
{
    assert((op & 0x0F00u16) >> 8u16 == (op / 256u16) % 16u16) by (bit_vector);
    assert((op & 0x00F0u16) >> 4u16 == (op / 16u16) % 16u16) by (bit_vector);
}

/// An instruction that neither jumps, calls, returns, skips nor waits for a key
/// moves the program counter on by exactly two bytes.
pub proof fn lemma_plain_instruction_advances(s: CpuState, rnd: u8)
    requires
        s.wf(),
        fetchable(s.pc),
        !is_control_flow(s.opcode),
    ensures
        execute(s, rnd) matches Ok(t) ==> t.pc == s.pc + 2,
{
    lemma_fields(s.opcode);
}

/// Adding an immediate (7XNN) wraps at 256 and leaves every other register, the
/// flag included, as it was.
pub proof fn lemma_add_immediate_wraps(s: CpuState, rnd: u8)
    requires
        s.wf(),
        fetchable(s.pc),
        family_of(s.opcode) == 0x7000,
    ensures
        execute(s, rnd) matches Ok(t) && t.v[x_of(s.opcode)] == (s.v[x_of(s.opcode)] + nn_of(
            s.opcode,
        )) % 256 && forall|j: int| 0 <= j < 16 && j != x_of(s.opcode) ==> t.v[j] == s.v[j],
{
    lemma_fields(s.opcode);
    assert(s.opcode != 0x00E0 && s.opcode != 0x00EE) by {
        let op = s.opcode;
        assert(op & 0xF000u16 == 0x7000u16 ==> op != 0x00E0u16 && op != 0x00EEu16) by (bit_vector);
    }
}

/// Adding registers (8XY4) wraps at 256 and sets the flag exactly when the
/// sum of the two operands exceeds 255.
pub proof fn lemma_add_registers_carry(s: CpuState, rnd: u8)
    requires
        s.wf(),
        fetchable(s.pc),
        family_of(s.opcode) == 0x8000,
        n_of(s.opcode) == 4,
        x_of(s.opcode) != 15,
    ensures
        ({
            let vx = s.v[x_of(s.opcode)];
            let vy = s.v[y_of(s.opcode)];
            execute(s, rnd) matches Ok(t) && t.v[x_of(s.opcode)] == (vx + vy) % 256 && (t.v[15]
                == 1) == (vx + vy > 255) && t.v[15] <= 1
        }),
{
    lemma_fields(s.opcode);
    assert(s.opcode != 0x00E0 && s.opcode != 0x00EE) by {
        let op = s.opcode;
        assert(op & 0xF000u16 == 0x8000u16 ==> op != 0x00E0u16 && op != 0x00EEu16) by (bit_vector);
    }
}

/// Subtraction (8XY5, 8XY7) wraps at 256 and sets the flag to 1 exactly when
/// no borrow occurs: the minuend is at least the subtrahend.
pub proof fn lemma_subtract_no_borrow(s: CpuState, rnd: u8)
    requires
        s.wf(),
        fetchable(s.pc),
        family_of(s.opcode) == 0x8000,
        n_of(s.opcode) == 5 || n_of(s.opcode) == 7,
        x_of(s.opcode) != 15,
    ensures
        ({
            let vx = s.v[x_of(s.opcode)];
            let vy = s.v[y_of(s.opcode)];
            let (a, b) = if n_of(s.opcode) == 5 { (vx, vy) } else { (vy, vx) };
            execute(s, rnd) matches Ok(t) && t.v[x_of(s.opcode)] == (a - b + 256) % 256 && t.v[15]
                == if a >= b { 1u8 } else { 0u8 }
        }),
{
    lemma_fields(s.opcode);
    assert(s.opcode != 0x00E0 && s.opcode != 0x00EE) by {
        let op = s.opcode;
        assert(op & 0xF000u16 == 0x8000u16 ==> op != 0x00E0u16 && op != 0x00EEu16) by (bit_vector);
    }
}

/// The shifts (8XY6, 8XYE) put the bit shifted out of the operand, as it was
/// before the shift, into the flag.
pub proof fn lemma_shift_flag_is_prior_bit(s: CpuState, rnd: u8)
    requires
        s.wf(),
        fetchable(s.pc),
        family_of(s.opcode) == 0x8000,
        n_of(s.opcode) == 6 || n_of(s.opcode) == 0xE,
        x_of(s.opcode) != 15,
    ensures
        ({
            let vx = s.v[x_of(s.opcode)];
            execute(s, rnd) matches Ok(t) && if n_of(s.opcode) == 6 {
                t.v[15] == vx % 2 && t.v[x_of(s.opcode)] == vx / 2
            } else {
                t.v[15] == vx / 128 && t.v[x_of(s.opcode)] == (vx * 2) % 256
            }
        }),
{
    lemma_fields(s.opcode);
    assert(s.opcode != 0x00E0 && s.opcode != 0x00EE) by {
        let op = s.opcode;
        assert(op & 0xF000u16 == 0x8000u16 ==> op != 0x00E0u16 && op != 0x00EEu16) by (bit_vector);
    }
    let vx = s.v[x_of(s.opcode)];
    assert(vx & 1u8 == vx % 2) by (bit_vector);
    assert(vx >> 1u8 == vx / 2) by (bit_vector);
    assert(vx >> 7u8 == vx / 128) by (bit_vector);
}

/// Loading a program into a fresh machine: the font stays, the program's bytes
/// sit from the program start, whatever would pass the last address is dropped,
/// and every address after the program holds 0.
pub proof fn lemma_load_fresh(program: Seq<u8>)
    ensures
        ({
            let m = loaded_memory(initial_memory(), program);
            &&& m.len() == MEMORY_SIZE
            &&& forall|a: int| 0 <= a < PROGRAM_START ==> #[trigger] m[a] == initial_memory()[a]
            &&& forall|a: int|
                PROGRAM_START <= a < MEMORY_SIZE && a < PROGRAM_START + program.len() ==> #[trigger] m[a]
                    == program[a - PROGRAM_START]
            &&& forall|a: int|
                PROGRAM_START + program.len() <= a < MEMORY_SIZE ==> #[trigger] m[a] == 0
        }),
{
}

/// A collision among the first `k` sprite pixels is one pixel, numbered `j < k`
/// row by row, that lands on a lit pixel.
pub proof fn lemma_collides_some_pixel(s: CpuState, vx: int, vy: int, k: int)
    requires
        k >= 0,
    ensures
        s.collides(vx, vy, k) == exists|j: int| 0 <= j < k && #[trigger] s.lands_on_lit(vx, vy, j / 8, j % 8),
    decreases k,
{
    if k > 0 {
        lemma_collides_some_pixel(s, vx, vy, k - 1);
        if s.collides(vx, vy, k) {
            if !s.lands_on_lit(vx, vy, (k - 1) / 8, (k - 1) % 8) {
                let j = choose|j: int| 0 <= j < k - 1 && #[trigger] s.lands_on_lit(vx, vy, j / 8, j % 8);
                assert(0 <= j < k && s.lands_on_lit(vx, vy, j / 8, j % 8));
            }
        }
        if exists|j: int| 0 <= j < k && #[trigger] s.lands_on_lit(vx, vy, j / 8, j % 8) {
            let j = choose|j: int| 0 <= j < k && #[trigger] s.lands_on_lit(vx, vy, j / 8, j % 8);
            if j < k - 1 {
                assert(s.collides(vx, vy, k - 1));
            }
        }
    }
}

/// The sprite instruction DXYN is not one of the two fixed 00E_ instructions.
proof fn lemma_draw_family(op: u16)
    requires
        family_of(op) == 0xD000,
    ensures
        op != 0x00E0 && op != 0x00EE,
{
    assert(op & 0xF000u16 == 0xD000u16 ==> op != 0x00E0u16 && op != 0x00EEu16) by (bit_vector);
}

/// Drawing wraps: sprite pixel (`row`, `col`) is XOR-ed into the framebuffer at
/// column `Vx + col` modulo 64 and row `Vy + row` modulo 32.
pub proof fn lemma_draw_wraps(s: CpuState, rnd: u8, row: int, col: int)
    requires
        s.wf(),
        fetchable(s.pc),
        family_of(s.opcode) == 0xD000,
        0 <= row < n_of(s.opcode),
        0 <= col < 8,
    ensures
        ({
            let vx = s.v[x_of(s.opcode)] as int;
            let vy = s.v[y_of(s.opcode)] as int;
            let r = (vy + row) % 32;
            let c = (vx + col) % 64;
            execute(s, rnd) matches Ok(t) ==> t.gfx[r][c] == s.gfx[r][c] ^ sprite_bit(
                s.memory,
                s.i as int,
                row,
                col,
            )
        }),
{
    lemma_fields(s.opcode);
    lemma_draw_family(s.opcode);
    let vx = s.v[x_of(s.opcode)] as int;
    let vy = s.v[y_of(s.opcode)] as int;
    lemma_wrap_row((vy + row) % 32, vy, row);
    lemma_wrap_col((vx + col) % 64, vx, col);
}

/// The sprite instruction sets the flag to 1 exactly when some pixel of the
/// framebuffer went from lit to dark, and to 0 otherwise.
pub proof fn lemma_draw_collision(s: CpuState, rnd: u8)
    requires
        s.wf(),
        fetchable(s.pc),
        family_of(s.opcode) == 0xD000,
    ensures
        execute(s, rnd) matches Ok(t) ==> {
            &&& t.v[15] <= 1
            &&& (t.v[15] == 1) == exists|r: int, c: int|
                0 <= r < 32 && 0 <= c < 64 && s.gfx[r][c] == 1 && #[trigger] t.gfx[r][c] == 0
        },
{
    lemma_fields(s.opcode);
    lemma_draw_family(s.opcode);
    let vx = s.v[x_of(s.opcode)] as int;
    let vy = s.v[y_of(s.opcode)] as int;
    let n = n_of(s.opcode);
    assert forall|a: u8, m: u8, sh: u8| #[trigger] (a ^ ((m >> sh) & 1u8)) == 0 && a == 1 implies (m >> sh) & 1u8 == 1 by {
        assert((a ^ ((m >> sh) & 1u8)) == 0 && a == 1 ==> (m >> sh) & 1u8 == 1) by (bit_vector);
    }
    assert(1u8 ^ 1u8 == 0u8) by (bit_vector);
    if execute(s, rnd) is Ok {
        let t = execute(s, rnd).unwrap();
        lemma_collides_some_pixel(s, vx, vy, 8 * n);
        if t.v[15] == 1 {
            let j = choose|j: int| 0 <= j < 8 * n && #[trigger] s.lands_on_lit(vx, vy, j / 8, j % 8);
            let row = j / 8;
            let col = j % 8;
            let r = (vy + row) % 32;
            let c = (vx + col) % 64;
            lemma_wrap_row(r, vy, row);
            lemma_wrap_col(c, vx, col);
            assert(s.gfx[r][c] == 1 && t.gfx[r][c] == 0);
        }
        if exists|r: int, c: int|
            0 <= r < 32 && 0 <= c < 64 && s.gfx[r][c] == 1 && #[trigger] t.gfx[r][c] == 0 {
            let (r, c) = choose|r: int, c: int|
                0 <= r < 32 && 0 <= c < 64 && s.gfx[r][c] == 1 && #[trigger] t.gfx[r][c] == 0;
            let row = (r - vy) % 32;
            let col = (c - vx) % 64;
            assert(row < n && col < 8);
            lemma_wrap_row(r, vy, row);
            lemma_wrap_col(c, vx, col);
            let j = row * 8 + col;
            assert(j / 8 == row && j % 8 == col);
            assert(s.lands_on_lit(vx, vy, j / 8, j % 8));
        }
    }
}

/// `first_pressed` finds the lowest pressed key at or after `k`.
pub proof fn lemma_first_pressed(keys: Seq<bool>, k: int)
    requires
        0 <= k <= 16,
    ensures
        k <= first_pressed(keys, k) <= 16,
        first_pressed(keys, k) < 16 ==> keys[first_pressed(keys, k)],
        forall|j: int| k <= j < first_pressed(keys, k) ==> !#[trigger] keys[j],
    decreases 16 - k,
{
    if k < 16 && !keys[k] {
        lemma_first_pressed(keys, k + 1);
    }
}

/// A pending key wait settles on the lowest-numbered pressed key, stores it and
/// moves on; with no key pressed the machine keeps waiting where it is.
pub proof fn lemma_wait_takes_lowest_key(s: CpuState, keys: Seq<bool>, rnd: u8)
    requires
        s.wf(),
        s.keypad_waiting,
        keys.len() == 16,
    ensures
        cycle_spec(s, keys, rnd) matches Ok(t) && if exists|k: int| 0 <= k < 16 && #[trigger] keys[k] {
            let key = t.v[s.keypad_register as int] as int;
            &&& !t.keypad_waiting
            &&& t.pc == s.pc + 2
            &&& 0 <= key < 16 && keys[key]
            &&& forall|j: int| 0 <= j < key ==> !#[trigger] keys[j]
        } else {
            t.keypad_waiting && t.pc == s.pc && t.v == s.v
        },
{
    lemma_first_pressed(keys, 0);
    if exists|k: int| 0 <= k < 16 && #[trigger] keys[k] {
        let k = choose|k: int| 0 <= k < 16 && #[trigger] keys[k];
        assert(first_pressed(keys, 0) <= k);
    }
}

/// A call (2NNN) whose target holds a return (00EE) comes back, two cycles
/// later, to the instruction right after the call, with the stack as deep as before.
pub proof fn lemma_call_then_return(s: CpuState, k1: Seq<bool>, k2: Seq<bool>, r1: u8, r2: u8)
    requires
        s.wf(),
        !s.keypad_waiting,
        fetchable(s.pc),
        family_of(s.fetch().opcode) == 0x2000,
        s.sp < 16,
        fetchable(nnn_of(s.fetch().opcode) as usize),
        s.memory[nnn_of(s.fetch().opcode) as int] == 0x00,
        s.memory[nnn_of(s.fetch().opcode) + 1] == 0xEE,
    ensures
        cycle_spec(s, k1, r1) matches Ok(t) && cycle_spec(t, k2, r2) matches Ok(u) && u.pc == s.pc
            + 2 && u.sp == s.sp,
{
    let op = s.fetch().opcode;
    lemma_fields(op);
    assert(op & 0xF000u16 == 0x2000u16 ==> op != 0x00E0u16 && op != 0x00EEu16) by (bit_vector);
}

} // verus!
