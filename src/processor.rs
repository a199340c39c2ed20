use vstd::prelude::*;

use crate::font::{font_set, font_spec};
use crate::laws::{lemma_execute_preserves_wf, lemma_fields, lemma_wrap_col, lemma_wrap_row};
use crate::model::{
    alu, begin_cycle, blank_screen, cycle_spec, draw, execute, fetchable,
    first_pressed, halted_state, initial_memory, initial_state, loaded_memory, misc,
    sprite_bit, x_of, y_of, CpuError, CpuState, MEMORY_SIZE, PROGRAM_START, SCREEN_HEIGHT,
    STACK_DEPTH,
};

verus! {

/// The interpreter: memory, registers, timers, stack, framebuffer and keypad latch.
pub struct CPU {
    pub opcode: u16,
    pub memory: [u8; 4096],
    pub v: [u8; 16],
    pub i: u16,
    pub pc: usize,
    pub delay_timer: u8,
    pub sound_timer: u8,
    pub stack: [usize; 16],
    pub sp: usize,
    pub gfx: [[u8; 64]; 32],
    pub draw_flag: bool,
    pub keypad: [bool; 16],
    pub keypad_waiting: bool,
    pub keypad_register: usize,
}

impl View for CPU {
    type V = CpuState;

    open spec fn view(&self) -> CpuState {
        CpuState {
            opcode: self.opcode,
            memory: self.memory@,
            v: self.v@,
            i: self.i,
            pc: self.pc,
            delay_timer: self.delay_timer,
            sound_timer: self.sound_timer,
            stack: self.stack@,
            sp: self.sp,
            gfx: screen_view(self.gfx),
            draw_flag: self.draw_flag,
            keypad: self.keypad@,
            keypad_waiting: self.keypad_waiting,
            keypad_register: self.keypad_register,
        }
    }
}

/// The framebuffer of an array of rows, as the model holds it.
pub open spec fn screen_view(g: [[u8; 64]; 32]) -> Seq<Seq<u8>> {
    Seq::new(SCREEN_HEIGHT as nat, |r: int| g@[r]@)
}

/// Relies on rand::random: a byte from the thread-local generator. Any value may come back.
#[verifier::external_body]
fn random_byte() -> (r: u8) {
    rand::random::<u8>()
}

/// The result of an instruction as the model states it: the state reached, or the error.
pub open spec fn outcome(r: Result<(), CpuError>, post: CpuState) -> Result<CpuState, CpuError> {
    match r {
        Ok(()) => Ok(post),
        Err(e) => Err(e),
    }
}

impl CPU {
    /// The machine invariant, stated on the model.
    pub open spec fn wf(&self) -> bool {
        self@.wf()
    }

    /// Zeroed memory with the font glyphs placed from address 0.
    pub fn init_ram() -> (r: [u8; 4096])
        ensures
            r@ == initial_memory(),
    {
        let font = font_set();
        let mut ram = [0u8; 4096];
        let mut k: usize = 0;
        while k < 80
            invariant
                k <= 80,
                font@ == font_spec(),
                forall|a: int| 0 <= a < k ==> ram@[a] == font_spec()[a],
                forall|a: int| k <= a < MEMORY_SIZE ==> ram@[a] == 0,
            decreases 80 - k,
        {
            ram[k] = font[k];
            k = k + 1;
        }
        assert(ram@ =~= initial_memory());
        ram
    }

    /// A machine with the font loaded, everything else zero, and the program counter
    /// at the program start.
    pub fn new() -> (r: CPU)
        ensures
            r@ == initial_state(),
            r.wf(),
    {
        let init_ram = CPU::init_ram();
        let r = CPU {
            memory: init_ram,
            v: [0; 16],
            i: 0,
            pc: 0x200,
            delay_timer: 0,
            sound_timer: 0,
            stack: [0; 16],
            sp: 0,
            gfx: [[0; 64]; 32],
            draw_flag: false,
            keypad: [false; 16],
            keypad_waiting: false,
            keypad_register: 0,
            opcode: 0,
        };
        assert(r@.v =~= initial_state().v);
        assert(r@.stack =~= initial_state().stack);
        assert(r@.keypad =~= initial_state().keypad);
        assert(r@.gfx =~~= blank_screen());
        assert(r@ =~~= initial_state());
        r
    }

    /// Copies `program` into memory from the program start; bytes that would
    /// land past the last address are dropped.
    pub fn load(&mut self, program: &[u8])
        ensures
            final(self)@ == (CpuState { memory: loaded_memory(old(self)@.memory, program@), ..old(self)@ }),
    {
        let mut mem = self.memory;
        let mut k: usize = 0;
        while k < program.len() && k < MEMORY_SIZE - PROGRAM_START
            invariant
                k <= MEMORY_SIZE - PROGRAM_START,
                k <= program@.len(),
                forall|a: int|
                    0 <= a < MEMORY_SIZE ==> #[trigger] mem@[a] == if PROGRAM_START <= a
                        < PROGRAM_START + k {
                        program@[a - PROGRAM_START]
                    } else {
                        old(self).memory@[a]
                    },
            decreases program@.len() - k,
        {
            mem[PROGRAM_START + k] = program[k];
            k = k + 1;
        }
        self.memory = mem;
        assert(self.memory@ =~= loaded_memory(old(self)@.memory, program@));
        assert(self@ =~~= (CpuState { memory: loaded_memory(old(self)@.memory, program@), ..old(self)@ }));
    }

    /// Reads the instruction at the program counter into `opcode`, big-endian.
    pub fn get_opcode(&mut self)
        requires
            fetchable(old(self).pc),
        ensures
            final(self)@ == old(self)@.fetch(),
    {
        let hi = self.memory[self.pc];
        let lo = self.memory[self.pc + 1];
        let op: u16 = (hi as u16) << 8 | (lo as u16);
        assert((hi as u16) << 8u16 | (lo as u16) == (hi as u16) * 256u16 + (lo as u16)) by (bit_vector)
            requires
                hi < 256,
        ;
        self.opcode = op;
        assert(self@ =~~= old(self)@.fetch());
    }

    /// The register named by bits 8..11 of the current instruction.
    pub fn op_x(&self) -> (r: usize)
        ensures
            r == x_of(self.opcode),
            r < 16,
    {
        proof {
            lemma_fields(self.opcode);
        }
        ((self.opcode & 0x0F00) >> 8) as usize
    }

    /// The register named by bits 4..7 of the current instruction.
    pub fn op_y(&self) -> (r: usize)
        ensures
            r == y_of(self.opcode),
            r < 16,
    {
        proof {
            lemma_fields(self.opcode);
        }
        ((self.opcode & 0x00F0) >> 4) as usize
    }

    /// Executes an instruction of the 8XY_ family held in `opcode`.
    fn run_alu(&mut self) -> (r: Result<(), CpuError>)
        requires
            old(self).wf(),
            fetchable(old(self).pc),
        ensures
            match alu(old(self)@) {
                Some(t) => r is Ok && final(self)@ == t,
                None => r == Err::<(), CpuError>(
                    CpuError::UnknownOpcode { opcode: old(self).opcode, pc: old(self).pc },
                ),
            },
            r is Err ==> final(self)@ == old(self)@,
    {
        let op = self.opcode;
        let x = self.op_x();
        let y = self.op_y();
        let vx = self.v[x];
        let vy = self.v[y];
        let pc = self.pc;
        let t = op & 0x000F;
        if t == 0 {
            self.v[x] = vy;
        } else if t == 1 {
            self.v[x] = vx | vy;
        } else if t == 2 {
            self.v[x] = vx & vy;
        } else if t == 3 {
            self.v[x] = vx ^ vy;
        } else if t == 4 {
            let sum: u16 = vx as u16 + vy as u16;
            self.v[x] = (sum % 256) as u8;
            self.v[15] = if sum > 255 { 1 } else { 0 };
        } else if t == 5 {
            self.v[15] = if vx >= vy { 1 } else { 0 };
            self.v[x] = ((vx as u16 + 256 - vy as u16) % 256) as u8;
        } else if t == 6 {
            self.v[15] = vx & 1;
            self.v[x] = vx >> 1;
        } else if t == 7 {
            self.v[15] = if vy >= vx { 1 } else { 0 };
            self.v[x] = ((vy as u16 + 256 - vx as u16) % 256) as u8;
        } else if t == 0xE {
            self.v[15] = vx >> 7;
            self.v[x] = ((vx as u16 * 2) % 256) as u8;
        } else {
            return Err(CpuError::UnknownOpcode { opcode: op, pc });
        }
        self.pc = pc + 2;
        assert(self@ =~~= alu(old(self)@).unwrap());
        Ok(())
    }

    /// Executes an instruction of the FX__ family held in `opcode`.
    fn run_misc(&mut self) -> (r: Result<(), CpuError>)
        requires
            old(self).wf(),
            fetchable(old(self).pc),
        ensures
            match misc(old(self)@) {
                Some(res) => outcome(r, final(self)@) == res,
                None => r == Err::<(), CpuError>(
                    CpuError::UnknownOpcode { opcode: old(self).opcode, pc: old(self).pc },
                ),
            },
            r is Err ==> final(self)@ == old(self)@,
    {
        let op = self.opcode;
        let pc = self.pc;
        let x = self.op_x();
        let vx = self.v[x];
        let base = self.i as usize;
        let t = op & 0x00FF;
        let ghost pre = self@;
        let overrun = CpuError::AddressOutOfRange { opcode: op, pc, index: self.i };
        if t == 0x07 {
            self.v[x] = self.delay_timer;
        } else if t == 0x0A {
            self.keypad_waiting = true;
            self.keypad_register = x;
            assert(self@ =~~= misc(pre).unwrap().unwrap());
            return Ok(());
        } else if t == 0x15 {
            self.delay_timer = vx;
        } else if t == 0x18 {
            self.sound_timer = vx;
        } else if t == 0x1E {
            self.i = ((self.i as u32 + vx as u32) % 65536) as u16;
        } else if t == 0x29 {
            self.i = ((vx % 16) as u16) * 5;
        } else if t == 0x33 {
            if base + 3 > MEMORY_SIZE {
                return Err(overrun);
            }
            self.memory[base] = vx / 100;
            self.memory[base + 1] = (vx / 10) % 10;
            self.memory[base + 2] = vx % 10;
        } else if t == 0x55 {
            if base + x + 1 > MEMORY_SIZE {
                return Err(overrun);
            }
            let mut mem = self.memory;
            let mut k: usize = 0;
            while k <= x
                invariant
                    self@ == pre,
                    pre.wf(),
                    x < 16,
                    k <= x + 1,
                    base == pre.i,
                    base + x + 1 <= MEMORY_SIZE,
                    forall|a: int|
                        0 <= a < MEMORY_SIZE ==> #[trigger] mem@[a] == if base <= a < base + k {
                            pre.v[a - base]
                        } else {
                            pre.memory[a]
                        },
                decreases x + 1 - k,
            {
                mem[base + k] = self.v[k];
                k = k + 1;
            }
            self.memory = mem;
            assert(self.memory@ =~= misc(pre).unwrap().unwrap().memory);
        } else if t == 0x65 {
            if base + x + 1 > MEMORY_SIZE {
                return Err(overrun);
            }
            let mut regs = self.v;
            let mut k: usize = 0;
            while k <= x
                invariant
                    self@ == pre,
                    pre.wf(),
                    x < 16,
                    k <= x + 1,
                    base == pre.i,
                    base + x + 1 <= MEMORY_SIZE,
                    forall|j: int|
                        0 <= j < 16 ==> #[trigger] regs@[j] == if j < k {
                            pre.memory[base + j]
                        } else {
                            pre.v[j]
                        },
                decreases x + 1 - k,
            {
                regs[k] = self.memory[base + k];
                k = k + 1;
            }
            self.v = regs;
            assert(self.v@ =~= misc(pre).unwrap().unwrap().v);
        } else {
            return Err(CpuError::UnknownOpcode { opcode: op, pc });
        }
        self.pc = pc + 2;
        assert(self@ =~~= misc(pre).unwrap().unwrap());
        Ok(())
    }

    /// Executes the sprite instruction DXYN held in `opcode`.
    fn run_draw(&mut self) -> (r: Result<(), CpuError>)
        requires
            old(self).wf(),
            fetchable(old(self).pc),
        ensures
            outcome(r, final(self)@) == draw(old(self)@),
            r is Err ==> final(self)@ == old(self)@,
    {
        let op = self.opcode;
        let pc = self.pc;
        let vx = self.v[self.op_x()] as usize;
        let vy = self.v[self.op_y()] as usize;
        let n = (op & 0x000F) as usize;
        let base = self.i as usize;
        proof {
            lemma_fields(op);
        }
        if base + n > MEMORY_SIZE {
            return Err(CpuError::AddressOutOfRange { opcode: op, pc, index: self.i });
        }
        let ghost pre = self@;
        let mut gfx = self.gfx;
        let mut collided = false;
        let mut byte: usize = 0;
        assert(screen_view(gfx) =~~= pre.drawn_upto(vx as int, vy as int, 0));
        while byte < n
            invariant
                self@ == pre,
                pre.wf(),
                n < 16,
                byte <= n,
                base == pre.i,
                base + n <= MEMORY_SIZE,
                vx < 256,
                vy < 256,
                screen_view(gfx) == pre.drawn_upto(vx as int, vy as int, 8 * byte),
                collided == pre.collides(vx as int, vy as int, 8 * byte),
            decreases n - byte,
        {
            let yr = (vy + byte) % 32;
            let sprite = self.memory[base + byte];
            let mut bit: usize = 0;
            while bit < 8
                invariant
                    self@ == pre,
                    pre.wf(),
                    n < 16,
                    byte < n,
                    bit <= 8,
                    base == pre.i,
                    base + n <= MEMORY_SIZE,
                    vx < 256,
                    vy < 256,
                    yr == (vy + byte) % 32,
                    sprite == pre.memory[base + byte],
                    screen_view(gfx) == pre.drawn_upto(vx as int, vy as int, 8 * byte + bit),
                    collided == pre.collides(vx as int, vy as int, 8 * byte + bit),
                decreases 8 - bit,
            {
                let xc = (vx + bit) % 64;
                let color: u8 = (sprite >> ((7 - bit) as u8)) & 1;
                let p = gfx[yr][xc];
                let ghost k = 8 * byte + bit;
                proof {
                    assert(k / 8 == byte as int);
                    assert(k % 8 == bit as int);
                    lemma_wrap_row(yr as int, vy as int, byte as int);
                    lemma_wrap_col(xc as int, vx as int, bit as int);
                    assert(screen_view(gfx)[yr as int][xc as int] == gfx@[yr as int]@[xc as int]);
                    assert(p == pre.gfx[yr as int][xc as int]);
                }
                if color == 1 && p == 1 {
                    collided = true;
                }
                let ghost g0 = screen_view(gfx);
                gfx[yr][xc] = p ^ color;
                proof {
                    assert(color == sprite_bit(pre.memory, pre.i as int, byte as int, bit as int));
                    assert forall|r: int, c: int| 0 <= r < 32 && 0 <= c < 64 implies
                        #[trigger] screen_view(gfx)[r][c] == pre.drawn_upto(vx as int, vy as int, k + 1)[r][c] by {
                        lemma_wrap_row(r, vy as int, byte as int);
                        lemma_wrap_col(c, vx as int, bit as int);
                        if r == yr && c == xc {
                            assert(screen_view(gfx)[r][c] == p ^ color);
                        } else {
                            assert(screen_view(gfx)[r][c] == g0[r][c]);
                            assert(g0[r][c] == pre.drawn_upto(vx as int, vy as int, k)[r][c]);
                        }
                    }
                    assert(screen_view(gfx) =~~= pre.drawn_upto(vx as int, vy as int, k + 1));
                }
                bit = bit + 1;
            }
            byte = byte + 1;
        }
        assert(screen_view(gfx) =~~= pre.drawn(vx as int, vy as int, n as int));
        self.gfx = gfx;
        self.v[15] = if collided { 1 } else { 0 };
        self.draw_flag = true;
        self.pc = pc + 2;
        assert(self@ =~~= draw(pre).unwrap());
        Ok(())
    }

    /// Executes the instruction held in `opcode`, with `rnd` as the random byte
    /// that CXNN masks.
    pub fn run_opcode(&mut self, rnd: u8) -> (r: Result<(), CpuError>)
        requires
            old(self).wf(),
            fetchable(old(self).pc),
        ensures
            outcome(r, final(self)@) == execute(old(self)@, rnd),
            r is Err ==> final(self)@ == old(self)@,
    {
        let op = self.opcode;
        let fam = op & 0xF000;
        let x = self.op_x();
        let y = self.op_y();
        let pc = self.pc;
        proof {
            lemma_fields(op);
        }
        let nn = (op & 0x00FF) as u8;
        let nnn = op & 0x0FFF;
        let ghost pre = self@;
        if op == 0x00E0 {
            self.gfx = [[0; 64]; 32];
            self.draw_flag = true;
            self.pc = pc + 2;
            assert(self@.gfx =~~= blank_screen());
            assert(self@ =~~= execute(pre, rnd).unwrap());
            Ok(())
        } else if op == 0x00EE {
            if self.sp == 0 {
                return Err(CpuError::StackUnderflow { pc });
            }
            self.sp = self.sp - 1;
            self.pc = self.stack[self.sp];
            assert(self@ =~~= execute(pre, rnd).unwrap());
            Ok(())
        } else if fam == 0x1000 {
            self.pc = nnn as usize;
            assert(self@ =~~= execute(pre, rnd).unwrap());
            Ok(())
        } else if fam == 0x2000 {
            if self.sp >= STACK_DEPTH {
                return Err(CpuError::StackOverflow { pc, sp: self.sp });
            }
            self.stack[self.sp] = pc + 2;
            self.sp = self.sp + 1;
            self.pc = nnn as usize;
            assert(self@ =~~= execute(pre, rnd).unwrap());
            Ok(())
        } else if fam == 0x3000 {
            self.pc = if self.v[x] == nn { pc + 4 } else { pc + 2 };
            assert(self@ =~~= execute(pre, rnd).unwrap());
            Ok(())
        } else if fam == 0x6000 {
            self.v[x] = nn;
            self.pc = pc + 2;
            assert(self@ =~~= execute(pre, rnd).unwrap());
            Ok(())
        } else if fam == 0x7000 {
            self.v[x] = ((self.v[x] as u16 + nn as u16) % 256) as u8;
            self.pc = pc + 2;
            assert(self@ =~~= execute(pre, rnd).unwrap());
            Ok(())
        } else if fam == 0x8000 {
            self.run_alu()
        } else if fam == 0x9000 && (op & 0x000F) == 0 {
            self.pc = if self.v[x] != self.v[y] { pc + 4 } else { pc + 2 };
            assert(self@ =~~= execute(pre, rnd).unwrap());
            Ok(())
        } else if fam == 0xA000 {
            self.i = nnn;
            self.pc = pc + 2;
            assert(self@ =~~= execute(pre, rnd).unwrap());
            Ok(())
        } else if fam == 0xB000 {
            self.pc = self.v[0] as usize + nnn as usize;
            assert(self@ =~~= execute(pre, rnd).unwrap());
            Ok(())
        } else if fam == 0xC000 {
            self.v[x] = rnd & nn;
            self.pc = pc + 2;
            assert(self@ =~~= execute(pre, rnd).unwrap());
            Ok(())
        } else if fam == 0xD000 {
            self.run_draw()
        } else if fam == 0xF000 {
            self.run_misc()
        } else {
            Err(CpuError::UnknownOpcode { opcode: op, pc })
        }
    }

    /// One cycle with `keypad` as the key snapshot and `rnd` as the random byte:
    /// settles a pending key wait, or counts the timers down and runs the next
    /// instruction. `Ok` tells whether the sound timer was running.
    pub fn step(&mut self, keypad: [bool; 16], rnd: u8) -> (r: Result<bool, CpuError>)
        requires
            old(self).wf(),
        ensures
            final(self).wf(),
            match r {
                Ok(beep) => {
                    &&& cycle_spec(old(self)@, keypad@, rnd) == Ok::<CpuState, CpuError>(final(self)@)
                    &&& beep == (!old(self).keypad_waiting && old(self).sound_timer > 0)
                },
                Err(e) => {
                    &&& cycle_spec(old(self)@, keypad@, rnd) == Err::<CpuState, CpuError>(e)
                    &&& final(self)@ == halted_state(old(self)@, keypad@)
                },
            },
    {
        let ghost s0 = self@;
        self.keypad = keypad;
        if self.keypad_waiting {
            let mut k: usize = 0;
            while k < 16 && !keypad[k]
                invariant
                    k <= 16,
                    first_pressed(keypad@, 0) == first_pressed(keypad@, k as int),
                decreases 16 - k,
            {
                k = k + 1;
            }
            assert(k < 16 ==> first_pressed(keypad@, k as int) == k);
            if k < 16 {
                self.v[self.keypad_register] = k as u8;
                self.keypad_waiting = false;
                self.pc = self.pc + 2;
            }
            assert(self@ =~~= begin_cycle(s0, keypad@).resolve_wait(keypad@));
            return Ok(false);
        }
        let beep = self.sound_timer > 0;
        if self.delay_timer > 0 {
            self.delay_timer = self.delay_timer - 1;
        }
        if beep {
            self.sound_timer = self.sound_timer - 1;
        }
        assert(self@ =~~= begin_cycle(s0, keypad@));
        if self.pc >= MEMORY_SIZE - 1 {
            return Err(CpuError::PcOutOfRange { pc: self.pc });
        }
        self.get_opcode();
        let ghost s1 = self@;
        let r = self.run_opcode(rnd);
        proof {
            if r is Ok {
                lemma_execute_preserves_wf(s1, rnd);
            }
        }
        match r {
            Ok(()) => Ok(beep),
            Err(e) => Err(e),
        }
    }

    /// One cycle with `keypad` as the key snapshot, drawing the random byte for
    /// CXNN from the thread-local generator: whatever byte came, the outcome is
    /// that of `step` with it.
    pub fn cycle(&mut self, keypad: [bool; 16]) -> (r: Result<bool, CpuError>)
        requires
            old(self).wf(),
        ensures
            final(self).wf(),
            match r {
                Ok(beep) => {
                    &&& exists|rnd: u8|
                        cycle_spec(old(self)@, keypad@, rnd) == Ok::<CpuState, CpuError>(
                            final(self)@,
                        )
                    &&& beep == (!old(self).keypad_waiting && old(self).sound_timer > 0)
                },
                Err(e) => {
                    &&& exists|rnd: u8|
                        cycle_spec(old(self)@, keypad@, rnd) == Err::<CpuState, CpuError>(e)
                    &&& final(self)@ == halted_state(old(self)@, keypad@)
                },
            },
    {
        let rnd = random_byte();
        self.step(keypad, rnd)
    }
}

} // verus!
