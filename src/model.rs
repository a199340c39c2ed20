use vstd::prelude::*;

use crate::font::font_spec;

verus! {

/// Number of bytes of addressable memory.
pub const MEMORY_SIZE: usize = 4096;

/// First address of a loaded program.
pub const PROGRAM_START: usize = 0x200;

/// Framebuffer width in pixels.
pub const SCREEN_WIDTH: usize = 64;

/// Framebuffer height in pixels.
pub const SCREEN_HEIGHT: usize = 32;

/// Depth of the return-address stack.
pub const STACK_DEPTH: usize = 16;

/// A fatal condition that halts the interpreter.
#[derive(Debug, Clone, Copy, PartialEq, Eq, Structural)]
pub enum CpuError {
    /// The fetched instruction matches no entry of the instruction set.
    UnknownOpcode { opcode: u16, pc: usize },
    /// A call found the return-address stack full.
    StackOverflow { pc: usize, sp: usize },
    /// A return found the return-address stack empty.
    StackUnderflow { pc: usize },
    /// The program counter does not address a whole instruction in memory.
    PcOutOfRange { pc: usize },
    /// A memory-block or sprite instruction would reach past the last address.
    AddressOutOfRange { opcode: u16, pc: usize, index: u16 },
}

/// The mathematical state of the machine: every array as a sequence.
#[verifier::ext_equal]
pub struct CpuState {
    pub opcode: u16,
    pub memory: Seq<u8>,
    pub v: Seq<u8>,
    pub i: u16,
    pub pc: usize,
    pub delay_timer: u8,
    pub sound_timer: u8,
    pub stack: Seq<usize>,
    pub sp: usize,
    pub gfx: Seq<Seq<u8>>,
    pub draw_flag: bool,
    pub keypad: Seq<bool>,
    pub keypad_waiting: bool,
    pub keypad_register: usize,
}

/// Register selected by bits 8..11 of an instruction.
pub open spec fn x_of(op: u16) -> int {
    ((op & 0x0F00u16) >> 8u16) as int
}

/// Register selected by bits 4..7 of an instruction.
pub open spec fn y_of(op: u16) -> int {
    ((op & 0x00F0u16) >> 4u16) as int
}

/// The low nibble of an instruction.
pub open spec fn n_of(op: u16) -> int {
    (op & 0x000Fu16) as int
}

/// The low byte of an instruction.
pub open spec fn nn_of(op: u16) -> u8 {
    (op & 0x00FFu16) as u8
}

/// The low twelve bits of an instruction: an address.
pub open spec fn nnn_of(op: u16) -> u16 {
    op & 0x0FFFu16
}

/// The leading nibble of an instruction, in place.
pub open spec fn family_of(op: u16) -> u16 {
    op & 0xF000u16
}

/// Whether an instruction sets the program counter other than by stepping over
/// itself: return, jump, call, the two conditional skips, the offset jump, and the
/// key wait, which holds the program counter until a key comes.
pub open spec fn is_control_flow(op: u16) -> bool {
    let fam = family_of(op);
    ||| op == 0x00EE
    ||| fam == 0x1000
    ||| fam == 0x2000
    ||| fam == 0x3000
    ||| fam == 0x9000
    ||| fam == 0xB000
    ||| (fam == 0xF000 && nn_of(op) == 0x0A)
}

/// Memory right after construction: the font glyphs from address 0, zero elsewhere.
pub open spec fn initial_memory() -> Seq<u8> {
    Seq::new(MEMORY_SIZE as nat, |a: int| if a < font_spec().len() { font_spec()[a] } else { 0u8 })
}

/// An all-dark framebuffer.
pub open spec fn blank_screen() -> Seq<Seq<u8>> {
    Seq::new(SCREEN_HEIGHT as nat, |r: int| Seq::new(SCREEN_WIDTH as nat, |c: int| 0u8))
}

/// The state of a freshly built interpreter.
pub open spec fn initial_state() -> CpuState {
    CpuState {
        opcode: 0,
        memory: initial_memory(),
        v: Seq::new(16, |k: int| 0u8),
        i: 0,
        pc: PROGRAM_START,
        delay_timer: 0,
        sound_timer: 0,
        stack: Seq::new(STACK_DEPTH as nat, |k: int| 0usize),
        sp: 0,
        gfx: blank_screen(),
        draw_flag: false,
        keypad: Seq::new(16, |k: int| false),
        keypad_waiting: false,
        keypad_register: 0,
    }
}

/// Memory after copying `program` from the program start, dropping what does not fit.
pub open spec fn loaded_memory(mem: Seq<u8>, program: Seq<u8>) -> Seq<u8> {
    Seq::new(
        mem.len(),
        |a: int|
            if PROGRAM_START <= a < PROGRAM_START + program.len() {
                program[a - PROGRAM_START]
            } else {
                mem[a]
            },
    )
}

/// The bit of sprite row `row` (read from `mem[i + row]`) at column `col`, leftmost first.
pub open spec fn sprite_bit(mem: Seq<u8>, i: int, row: int, col: int) -> u8 {
    (mem[i + row] >> ((7 - col) as u8)) & 1u8
}

/// The lowest index at or after `k` of a pressed key, or 16 when none is pressed there.
pub open spec fn first_pressed(keys: Seq<bool>, k: int) -> int
    decreases 16 - k,
{
    if k >= 16 {
        16
    } else if keys[k] {
        k
    } else {
        first_pressed(keys, k + 1)
    }
}

impl CpuState {
    /// Sizes, stack pointer, key register and pixel values are in range.
    pub open spec fn wf(self) -> bool {
        &&& self.memory.len() == MEMORY_SIZE
        &&& self.v.len() == 16
        &&& self.stack.len() == STACK_DEPTH
        &&& self.sp <= STACK_DEPTH
        &&& self.keypad.len() == 16
        &&& self.keypad_register < 16
        &&& self.keypad_waiting ==> fetchable(self.pc)
        &&& self.gfx.len() == SCREEN_HEIGHT
        &&& forall|r: int|
            0 <= r < SCREEN_HEIGHT ==> #[trigger] self.gfx[r].len() == SCREEN_WIDTH
        &&& forall|r: int, c: int|
            0 <= r < SCREEN_HEIGHT && 0 <= c < SCREEN_WIDTH ==> #[trigger] self.gfx[r][c] <= 1
    }

    pub open spec fn with_v(self, x: int, val: u8) -> CpuState {
        CpuState { v: self.v.update(x, val), ..self }
    }

    pub open spec fn with_pc(self, pc: int) -> CpuState {
        CpuState { pc: pc as usize, ..self }
    }

    /// Moves on by `n` bytes.
    pub open spec fn advance(self, n: int) -> CpuState {
        self.with_pc(self.pc + n)
    }

    /// Both timers count down by one, stopping at zero.
    pub open spec fn tick(self) -> CpuState {
        CpuState {
            delay_timer: if self.delay_timer > 0 { (self.delay_timer - 1) as u8 } else { 0 },
            sound_timer: if self.sound_timer > 0 { (self.sound_timer - 1) as u8 } else { 0 },
            ..self
        }
    }

    /// The two bytes at the program counter, most significant first.
    pub open spec fn fetch(self) -> CpuState {
        CpuState {
            opcode: (self.memory[self.pc as int] as u16 * 256 + self.memory[self.pc + 1] as u16) as u16,
            ..self
        }
    }

    /// The pending key wait, settled by the lowest pressed key if there is one.
    pub open spec fn resolve_wait(self, keys: Seq<bool>) -> CpuState {
        let k = first_pressed(keys, 0);
        if k < 16 {
            CpuState {
                keypad_waiting: false,
                ..self.with_v(self.keypad_register as int, k as u8)
            }.advance(2)
        } else {
            self
        }
    }

    /// The framebuffer after drawing `n` sprite rows from `mem[i..]` at (`vx`, `vy`).
    pub open spec fn drawn(self, vx: int, vy: int, n: int) -> Seq<Seq<u8>> {
        Seq::new(
            SCREEN_HEIGHT as nat,
            |r: int|
                Seq::new(
                    SCREEN_WIDTH as nat,
                    |c: int|
                        if (r - vy) % 32 < n && (c - vx) % 64 < 8 {
                            self.gfx[r][c] ^ sprite_bit(
                                self.memory,
                                self.i as int,
                                (r - vy) % 32,
                                (c - vx) % 64,
                            )
                        } else {
                            self.gfx[r][c]
                        },
                ),
        )
    }

    /// The framebuffer after XOR-ing in the first `k` sprite pixels, taken row by
    /// row, eight to a row.
    pub open spec fn drawn_upto(self, vx: int, vy: int, k: int) -> Seq<Seq<u8>> {
        Seq::new(
            SCREEN_HEIGHT as nat,
            |r: int|
                Seq::new(
                    SCREEN_WIDTH as nat,
                    |c: int|
                        if (c - vx) % 64 < 8 && ((r - vy) % 32) * 8 + (c - vx) % 64 < k {
                            self.gfx[r][c] ^ sprite_bit(
                                self.memory,
                                self.i as int,
                                (r - vy) % 32,
                                (c - vx) % 64,
                            )
                        } else {
                            self.gfx[r][c]
                        },
                ),
        )
    }

    /// Whether sprite pixel (`row`, `col`) is set and lands on a lit pixel.
    pub open spec fn lands_on_lit(self, vx: int, vy: int, row: int, col: int) -> bool {
        sprite_bit(self.memory, self.i as int, row, col) == 1 && self.gfx[(vy + row) % 32][(vx + col)
            % 64] == 1
    }

    /// Whether one of the first `k` sprite pixels (row by row, eight to a row)
    /// lands on a lit pixel.
    pub open spec fn collides(self, vx: int, vy: int, k: int) -> bool
        decreases k,
    {
        if k <= 0 {
            false
        } else {
            let row = (k - 1) / 8;
            let col = (k - 1) % 8;
            self.collides(vx, vy, k - 1) || self.lands_on_lit(vx, vy, row, col)
        }
    }
}

/// What an instruction of the 8XY_ family does, or `None` for an unknown low nibble.
pub open spec fn alu(s: CpuState) -> Option<CpuState> {
    let op = s.opcode;
    let x = x_of(op);
    let vx = s.v[x];
    let vy = s.v[y_of(op)];
    let t = op & 0x000Fu16;
    if t == 0 {
        Some(s.with_v(x, vy).advance(2))
    } else if t == 1 {
        Some(s.with_v(x, vx | vy).advance(2))
    } else if t == 2 {
        Some(s.with_v(x, vx & vy).advance(2))
    } else if t == 3 {
        Some(s.with_v(x, vx ^ vy).advance(2))
    } else if t == 4 {
        Some(
            s.with_v(x, ((vx + vy) % 256) as u8).with_v(
                15,
                if vx + vy > 255 { 1u8 } else { 0u8 },
            ).advance(2),
        )
    } else if t == 5 {
        Some(
            s.with_v(15, if vx >= vy { 1u8 } else { 0u8 }).with_v(
                x,
                ((vx - vy + 256) % 256) as u8,
            ).advance(2),
        )
    } else if t == 6 {
        Some(s.with_v(15, vx & 1).with_v(x, vx >> 1u8).advance(2))
    } else if t == 7 {
        Some(
            s.with_v(15, if vy >= vx { 1u8 } else { 0u8 }).with_v(
                x,
                ((vy - vx + 256) % 256) as u8,
            ).advance(2),
        )
    } else if t == 0xE {
        Some(s.with_v(15, vx >> 7u8).with_v(x, ((vx * 2) % 256) as u8).advance(2))
    } else {
        None
    }
}

/// What an instruction of the FX__ family does, or `None` for an unknown low byte.
pub open spec fn misc(s: CpuState) -> Option<Result<CpuState, CpuError>> {
    let op = s.opcode;
    let x = x_of(op);
    let vx = s.v[x];
    let t = op & 0x00FFu16;
    let overrun = Err(CpuError::AddressOutOfRange { opcode: op, pc: s.pc, index: s.i });
    if t == 0x07 {
        Some(Ok(s.with_v(x, s.delay_timer).advance(2)))
    } else if t == 0x0A {
        Some(Ok(CpuState { keypad_waiting: true, keypad_register: x as usize, ..s }))
    } else if t == 0x15 {
        Some(Ok(CpuState { delay_timer: vx, ..s }.advance(2)))
    } else if t == 0x18 {
        Some(Ok(CpuState { sound_timer: vx, ..s }.advance(2)))
    } else if t == 0x1E {
        Some(Ok(CpuState { i: ((s.i + vx) % 65536) as u16, ..s }.advance(2)))
    } else if t == 0x29 {
        Some(Ok(CpuState { i: ((vx % 16) * 5) as u16, ..s }.advance(2)))
    } else if t == 0x33 {
        if s.i + 3 > MEMORY_SIZE {
            Some(overrun)
        } else {
            let m = s.memory.update(s.i as int, vx / 100).update(s.i + 1, (vx / 10) % 10).update(
                s.i + 2,
                vx % 10,
            );
            Some(Ok(CpuState { memory: m, ..s }.advance(2)))
        }
    } else if t == 0x55 {
        if s.i + x + 1 > MEMORY_SIZE {
            Some(overrun)
        } else {
            let m = Seq::new(
                s.memory.len(),
                |a: int|
                    if s.i <= a <= s.i + x {
                        s.v[a - s.i]
                    } else {
                        s.memory[a]
                    },
            );
            Some(Ok(CpuState { memory: m, ..s }.advance(2)))
        }
    } else if t == 0x65 {
        if s.i + x + 1 > MEMORY_SIZE {
            Some(overrun)
        } else {
            let regs = Seq::new(
                s.v.len(),
                |k: int|
                    if k <= x {
                        s.memory[s.i + k]
                    } else {
                        s.v[k]
                    },
            );
            Some(Ok(CpuState { v: regs, ..s }.advance(2)))
        }
    } else {
        None
    }
}

/// What the sprite instruction DXYN does.
pub open spec fn draw(s: CpuState) -> Result<CpuState, CpuError> {
    let op = s.opcode;
    let vx = s.v[x_of(op)] as int;
    let vy = s.v[y_of(op)] as int;
    let n = n_of(op);
    if s.i + n > MEMORY_SIZE {
        Err(CpuError::AddressOutOfRange { opcode: op, pc: s.pc, index: s.i })
    } else {
        let hit = s.collides(vx, vy, 8 * n);
        Ok(
            CpuState { gfx: s.drawn(vx, vy, n), draw_flag: true, ..s }.with_v(
                15,
                if hit { 1u8 } else { 0u8 },
            ).advance(2),
        )
    }
}

/// What the instruction held in `s.opcode` does, with `rnd` as the random byte.
pub open spec fn execute(s: CpuState, rnd: u8) -> Result<CpuState, CpuError> {
    let op = s.opcode;
    let fam = family_of(op);
    let x = x_of(op);
    let unknown = Err(CpuError::UnknownOpcode { opcode: op, pc: s.pc });
    if op == 0x00E0 {
        Ok(CpuState { gfx: blank_screen(), draw_flag: true, ..s }.advance(2))
    } else if op == 0x00EE {
        if s.sp == 0 {
            Err(CpuError::StackUnderflow { pc: s.pc })
        } else {
            let sp = (s.sp - 1) as usize;
            Ok(CpuState { sp: sp, ..s }.with_pc(s.stack[sp as int] as int))
        }
    } else if fam == 0x1000 {
        Ok(s.with_pc(nnn_of(op) as int))
    } else if fam == 0x2000 {
        if s.sp >= STACK_DEPTH {
            Err(CpuError::StackOverflow { pc: s.pc, sp: s.sp })
        } else {
            Ok(
                CpuState {
                    stack: s.stack.update(s.sp as int, (s.pc + 2) as usize),
                    sp: (s.sp + 1) as usize,
                    ..s
                }.with_pc(nnn_of(op) as int),
            )
        }
    } else if fam == 0x3000 {
        Ok(s.advance(if s.v[x] == nn_of(op) { 4 } else { 2 }))
    } else if fam == 0x6000 {
        Ok(s.with_v(x, nn_of(op)).advance(2))
    } else if fam == 0x7000 {
        Ok(s.with_v(x, ((s.v[x] + nn_of(op)) % 256) as u8).advance(2))
    } else if fam == 0x8000 {
        match alu(s) {
            Some(t) => Ok(t),
            None => unknown,
        }
    } else if fam == 0x9000 && n_of(op) == 0 {
        Ok(s.advance(if s.v[x] != s.v[y_of(op)] { 4 } else { 2 }))
    } else if fam == 0xA000 {
        Ok(CpuState { i: nnn_of(op), ..s }.advance(2))
    } else if fam == 0xB000 {
        Ok(s.with_pc(s.v[0] + nnn_of(op)))
    } else if fam == 0xC000 {
        Ok(s.with_v(x, rnd & nn_of(op)).advance(2))
    } else if fam == 0xD000 {
        draw(s)
    } else if fam == 0xF000 {
        match misc(s) {
            Some(r) => r,
            None => unknown,
        }
    } else {
        unknown
    }
}

/// The state in which a cycle starts: the key snapshot recorded and, unless
/// a key wait is pending, both timers counted down.
pub open spec fn begin_cycle(s: CpuState, keys: Seq<bool>) -> CpuState {
    let t = CpuState { keypad: keys, ..s };
    if s.keypad_waiting {
        t
    } else {
        t.tick()
    }
}

/// Whether the two bytes at `pc` lie in memory.
pub open spec fn fetchable(pc: usize) -> bool {
    pc + 1 < MEMORY_SIZE
}

/// One whole cycle: settle a pending key wait, or count the timers down, fetch and execute.
pub open spec fn cycle_spec(s: CpuState, keys: Seq<bool>, rnd: u8) -> Result<CpuState, CpuError> {
    let t = begin_cycle(s, keys);
    if s.keypad_waiting {
        Ok(t.resolve_wait(keys))
    } else if !fetchable(t.pc) {
        Err(CpuError::PcOutOfRange { pc: t.pc })
    } else {
        execute(t.fetch(), rnd)
    }
}

/// The state that a failed cycle leaves behind.
pub open spec fn halted_state(s: CpuState, keys: Seq<bool>) -> CpuState {
    let t = begin_cycle(s, keys);
    if fetchable(t.pc) {
        t.fetch()
    } else {
        t
    }
}

} // verus!
