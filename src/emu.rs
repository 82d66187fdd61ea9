//! The interpreter: machine state held in fixed-size arrays, and the
//! operations that the host calls on it.
use vstd::prelude::*;

use crate::machine::{
    addr, blank_display, collides, drawn, flips, lemma_op_fields, loaded_regs, lowest_key,
    next_seed, sprite_bit, stored, EmuError, MachineState, MAX_PROGRAM_LEN, NUM_KEYS, NUM_REGS, RAM_SIZE,
    RANDOM_SEED, SCREEN_CELLS, SCREEN_HEIGHT, SCREEN_WIDTH, STACK_SIZE, START_ADDR,
};

verus! {

/// A CHIP-8 machine: memory, framebuffer, registers, call stack, keypad and timers.
pub struct Emu {
    pc: u16,
    ram: [u8; RAM_SIZE],
    screen: [bool; SCREEN_CELLS],
    v_reg: [u8; NUM_REGS],
    i_reg: u16,
    sp: u16,
    stack: [u16; STACK_SIZE],
    keys: [bool; NUM_KEYS],
    dt: u8,
    st: u8,
    seed: u16,
}

/// Position of the cell (`x`, `y`) in the row-major framebuffer.
pub open spec fn cell(x: int, y: int) -> int {
    y * SCREEN_WIDTH + x
}

/// The rows of a row-major framebuffer.
pub open spec fn rows_of(cells: Seq<bool>) -> Seq<Seq<bool>> {
    Seq::new(
        SCREEN_HEIGHT as nat,
        |y: int| Seq::new(SCREEN_WIDTH as nat, |x: int| cells[cell(x, y)]),
    )
}

impl View for Emu {
    type V = MachineState;

    closed spec fn view(&self) -> MachineState {
        MachineState {
            pc: self.pc,
            memory: self.ram@,
            display: rows_of(self.screen@),
            registers: self.v_reg@,
            index: self.i_reg,
            sp: self.sp,
            stack: self.stack@,
            keys: self.keys@,
            delay: self.dt,
            sound: self.st,
            seed: self.seed,
        }
    }
}

/// One step of the 16-bit xorshift generator.
fn next_random(x: u16) -> (r: u16)
    ensures
        r == next_seed(x),
{
    let a = x ^ (x << 7u16);
    let b = a ^ (a >> 9u16);
    b ^ (b << 8u16)
}

/// An address `b` lies `k` bytes after `base`, counted around memory, exactly
/// when it is the wrapped address `base + k`.
proof fn lemma_offset(base: int, k: int, b: int)
    requires
        0 <= base,
        0 <= k < RAM_SIZE,
        0 <= b < RAM_SIZE,
    ensures
        ((b - base) % (RAM_SIZE as int) == k) == (b == (base + k) % (RAM_SIZE as int)),
{
    let m = RAM_SIZE as int;
    vstd::arithmetic::div_mod::lemma_fundamental_div_mod(b - base, m);
    vstd::arithmetic::div_mod::lemma_fundamental_div_mod(base + k, m);
    assert(((b - base) % m == k) == (b == (base + k) % m)) by (nonlinear_arith)
        requires
            0 <= k < m,
            0 <= b < m,
            m == 4096,
            b - base == m * ((b - base) / m) + (b - base) % m,
            0 <= (b - base) % m < m,
            base + k == m * ((base + k) / m) + (base + k) % m,
            0 <= (base + k) % m < m,
    ;
}

impl Emu {
    /// A machine in its initial state.
    pub fn new() -> (r: Emu)
        ensures
            r@ == MachineState::initial(),
            r@.wf(),
    {
        let r = Emu {
            pc: START_ADDR,
            ram: [0; RAM_SIZE],
            screen: [false; SCREEN_CELLS],
            v_reg: [0; NUM_REGS],
            i_reg: 0,
            sp: 0,
            stack: [0; STACK_SIZE],
            keys: [false; NUM_KEYS],
            dt: 0,
            st: 0,
            seed: RANDOM_SEED,
        };
        assert(r@.memory =~= MachineState::initial().memory);
        assert(r@.registers =~= MachineState::initial().registers);
        assert(r@.stack =~= MachineState::initial().stack);
        assert(r@.keys =~= MachineState::initial().keys);
        assert(r@.display =~~= blank_display());
        r
    }

    /// Restores every part of the machine to its initial state.
    pub fn reset(&mut self)
        ensures
            final(self)@ == MachineState::initial(),
            final(self)@.wf(),
    {
        *self = Emu::new();
    }

    /// The program counter and every saved return address stay within memory, and
    /// the stack pointer within the stack.
    #[verifier::type_invariant]
    closed spec fn inv(&self) -> bool {
        &&& self.pc < RAM_SIZE
        &&& self.sp <= STACK_SIZE
        &&& forall|i: int| 0 <= i < STACK_SIZE ==> #[trigger] self.stack@[i] < RAM_SIZE
    }

    /// Loads `data` into memory from the start address on. A program longer than
    /// the memory above the start address is refused, and nothing is written.
    pub fn load(&mut self, data: &[u8]) -> (r: Result<(), EmuError>)
        ensures
            data@.len() <= MAX_PROGRAM_LEN ==> r == Ok::<(), EmuError>(()) && final(self)@ == old(
                self,
            )@.load(data@),
            data@.len() > MAX_PROGRAM_LEN ==> r == Err::<(), EmuError>(EmuError::CapacityExceeded)
                && final(self)@ == old(self)@,
    {
        proof {
            use_type_invariant(&*self);
        }
        if data.len() > MAX_PROGRAM_LEN {
            return Err(EmuError::CapacityExceeded);
        }
        let mut i: usize = 0;
        proof {
            assert(self@.memory =~= self@.load(data@.subrange(0, 0)).memory);
        }
        while i < data.len()
            invariant
                i <= data@.len() <= MAX_PROGRAM_LEN,
                self@ == old(self)@.load(data@.subrange(0, i as int)),
                self.inv(),
            decreases data@.len() - i,
        {
            self.ram[START_ADDR as usize + i] = data[i];
            proof {
                let s = old(self)@;
                assert(self@.memory =~= s.load(data@.subrange(0, i + 1)).memory);
            }
            i += 1;
        }
        proof {
            assert(data@.subrange(0, data@.len() as int) =~= data@);
        }
        Ok(())
    }

    /// Records whether key `idx` of the hex keypad is held down.
    pub fn keypress(&mut self, idx: usize, pressed: bool)
        requires
            idx < NUM_KEYS,
        ensures
            final(self)@ == (MachineState { keys: old(self)@.keys.update(idx as int, pressed), ..old(self)@ }),
    {
        proof {
            use_type_invariant(&*self);
        }
        self.keys[idx] = pressed;
    }

    /// One 60 Hz timer step: the delay and sound timers each count down by one
    /// unless already at zero.
    pub fn advance_timers(&mut self)
        ensures
            final(self)@ == old(self)@.timers_advanced(),
    {
        proof {
            use_type_invariant(&*self);
        }
        if self.dt > 0 {
            self.dt = self.dt - 1;
        }
        if self.st > 0 {
            self.st = self.st - 1;
        }
    }

    /// The framebuffer, row-major: cell (x, y) stands at `y * SCREEN_WIDTH + x`.
    pub fn get_display(&self) -> (r: &[bool; SCREEN_CELLS])
        ensures
            rows_of(r@) == self@.display,
    {
        &self.screen
    }

    /// The sound timer; the host plays a tone while it is non-zero.
    pub fn get_sound_timer(&self) -> (r: u8)
        ensures
            r == self@.sound,
    {
        self.st
    }

    /// The delay timer.
    pub fn get_delay_timer(&self) -> (r: u8)
        ensures
            r == self@.delay,
    {
        self.dt
    }

    /// The program counter.
    pub fn get_pc(&self) -> (r: u16)
        ensures
            r == self@.pc,
    {
        self.pc
    }

    /// The number of entries on the call stack.
    pub fn get_sp(&self) -> (r: u16)
        ensures
            r == self@.sp,
    {
        self.sp
    }

    /// The index register.
    pub fn get_index(&self) -> (r: u16)
        ensures
            r == self@.index,
    {
        self.i_reg
    }

    /// General-purpose register `k`.
    pub fn get_register(&self, k: usize) -> (r: u8)
        requires
            k < NUM_REGS,
        ensures
            r == self@.registers[k as int],
    {
        self.v_reg[k]
    }

    /// Call stack entry `k`.
    pub fn get_stack_entry(&self, k: usize) -> (r: u16)
        requires
            k < STACK_SIZE,
        ensures
            r == self@.stack[k as int],
    {
        self.stack[k]
    }

    /// The byte at memory address `a`.
    pub fn read_memory(&self, a: usize) -> (r: u8)
        requires
            a < RAM_SIZE,
        ensures
            r == self@.memory[a as int],
    {
        self.ram[a]
    }

    /// The register-to-register family 8XYN.
    fn exec_alu(&mut self, x: usize, y: usize, n: u16)
        requires
            x < NUM_REGS,
            y < NUM_REGS,
        ensures
            final(self)@ == old(self)@.alu(x as int, y as int, n),
    {
        proof {
            use_type_invariant(&*self);
        }
        let vx = self.v_reg[x];
        let vy = self.v_reg[y];
        if n == 0 {
            self.v_reg[x] = vy;
        } else if n == 1 {
            self.v_reg[x] = vx | vy;
        } else if n == 2 {
            self.v_reg[x] = vx & vy;
        } else if n == 3 {
            self.v_reg[x] = vx ^ vy;
        } else if n == 4 {
            let sum = vx as u16 + vy as u16;
            self.v_reg[x] = (sum % 256) as u8;
            self.v_reg[0xF] = if sum > 255 { 1 } else { 0 };
        } else if n == 5 {
            self.v_reg[x] = ((vx as u16 + 256 - vy as u16) % 256) as u8;
            self.v_reg[0xF] = if vx >= vy { 1 } else { 0 };
        } else if n == 6 {
            self.v_reg[x] = vx >> 1u8;
            self.v_reg[0xF] = vx & 1u8;
        } else if n == 7 {
            self.v_reg[x] = ((vy as u16 + 256 - vx as u16) % 256) as u8;
            self.v_reg[0xF] = if vy >= vx { 1 } else { 0 };
        } else if n == 0xE {
            self.v_reg[x] = ((vx as u16 * 2) % 256) as u8;
            self.v_reg[0xF] = vx >> 7u8;
        }
    }

    /// The family FXNN: timers, keys, the index register and memory transfers.
    fn exec_misc(&mut self, x: usize, nn: u16)
        requires
            x < NUM_REGS,
        ensures
            final(self)@ == old(self)@.misc(x as int, nn),
    {
        proof {
            use_type_invariant(&*self);
        }
        let vx = self.v_reg[x];
        if nn == 0x07 {
            self.v_reg[x] = self.dt;
        } else if nn == 0x0A {
            self.wait_key(x);
        } else if nn == 0x15 {
            self.dt = vx;
        } else if nn == 0x18 {
            self.st = vx;
        } else if nn == 0x1E {
            self.i_reg = self.i_reg.wrapping_add(vx as u16);
        } else if nn == 0x29 {
            self.i_reg = vx as u16 * 5;
        } else if nn == 0x33 {
            let i = self.i_reg as usize;
            self.ram[i % RAM_SIZE] = vx / 100;
            self.ram[(i + 1) % RAM_SIZE] = (vx / 10) % 10;
            self.ram[(i + 2) % RAM_SIZE] = vx % 10;
        } else if nn == 0x55 {
            self.store_registers(x);
        } else if nn == 0x65 {
            self.load_registers(x);
        }
    }

    /// Puts the lowest held key into register `x`, or, with no key held, moves
    /// the program counter back so that the instruction runs again.
    fn wait_key(&mut self, x: usize)
        requires
            x < NUM_REGS,
        ensures
            final(self)@ == old(self)@.misc(x as int, 0x0A),
    {
        proof {
            use_type_invariant(&*self);
        }
        let mut k: usize = 0;
        while k < NUM_KEYS && !self.keys[k]
            invariant
                k <= NUM_KEYS,
                forall|j: int| 0 <= j < k ==> !#[trigger] self.keys@[j],
            decreases NUM_KEYS - k,
        {
            k += 1;
        }
        if k < NUM_KEYS {
            proof {
                let keys = self@.keys;
                assert(lowest_key(keys, k as int));
                let c = choose|c: int| lowest_key(keys, c);
                assert(c == k) by {
                    if c < k {
                        assert(!keys[c]);
                    } else if c > k {
                        assert(!keys[k as int]);
                    }
                }
            }
            self.v_reg[x] = k as u8;
        } else {
            proof {
                assert(!exists|c: int| lowest_key(self@.keys, c));
            }
            self.pc = (self.pc + 4094) % RAM_SIZE as u16;
        }
    }

    /// Writes registers `0..=x` to memory from the index register on.
    fn store_registers(&mut self, x: usize)
        requires
            x < NUM_REGS,
        ensures
            final(self)@ == (MachineState { memory: stored(old(self)@, x as int), ..old(self)@ }),
    {
        proof {
            use_type_invariant(&*self);
        }
        let ghost s = self@;
        let base = self.i_reg as usize;
        let mut k: usize = 0;
        proof {
            assert(self@.memory =~= stored(s, -1));
        }
        while k <= x
            invariant
                k <= x + 1,
                x < NUM_REGS,
                base == s.index,
                self.inv(),
                self@ == (MachineState { memory: stored(s, k - 1), ..s }),
            decreases x + 1 - k,
        {
            let a = (base + k) % RAM_SIZE;
            self.ram[a] = self.v_reg[k];
            proof {
                assert forall|b: int| 0 <= b < RAM_SIZE implies #[trigger] self.ram@[b] == stored(
                    s,
                    k as int,
                )[b] by {
                    lemma_offset(base as int, k as int, b);
                }
                assert(self@.memory =~= stored(s, k as int));
            }
            k += 1;
        }
    }

    /// Reads registers `0..=x` from memory from the index register on.
    fn load_registers(&mut self, x: usize)
        requires
            x < NUM_REGS,
        ensures
            final(self)@ == (MachineState { registers: loaded_regs(old(self)@, x as int), ..old(self)@ }),
    {
        proof {
            use_type_invariant(&*self);
        }
        let ghost s = self@;
        let base = self.i_reg as usize;
        let mut k: usize = 0;
        proof {
            assert(self@.registers =~= loaded_regs(s, -1));
        }
        while k <= x
            invariant
                k <= x + 1,
                x < NUM_REGS,
                base == s.index,
                self.inv(),
                self@ == (MachineState { registers: loaded_regs(s, k - 1), ..s }),
            decreases x + 1 - k,
        {
            self.v_reg[k] = self.ram[(base + k) % RAM_SIZE];
            proof {
                assert(self@.registers =~= loaded_regs(s, k as int));
            }
            k += 1;
        }
    }

    /// XOR-draws the `n`-row sprite at the index register onto the framebuffer at
    /// (`x0`, `y0`), clipping what falls off the screen; register 0xF records
    /// whether a lit pixel was turned off.
    fn exec_draw(&mut self, x0: u8, y0: u8, n: u16)
        requires
            n < 16,
        ensures
            final(self)@ == (MachineState {
                display: drawn(old(self)@, x0 as int, y0 as int, n as int),
                ..old(self)@.with_reg(
                    0xF,
                    if collides(old(self)@, x0 as int, y0 as int, n as int) {
                        1
                    } else {
                        0
                    },
                )
            }),
    {
        proof {
            use_type_invariant(&*self);
        }
        let ghost s = self@;
        let ghost n_i = n as int;
        let mut hit = false;
        let mut row: usize = 0;
        while row < n as usize
            invariant
                row <= n < 16,
                n_i == n,
                self.inv(),
                (MachineState { display: s.display, ..self@ }) == s,
                forall|x: int, y: int|
                    0 <= x < SCREEN_WIDTH && 0 <= y < SCREEN_HEIGHT ==> #[trigger] self.screen@[cell(
                        x,
                        y,
                    )] == (s.display[y][x] != (flips(s, x0 as int, y0 as int, n_i, x, y) && y < y0
                        + row)),
                hit == exists|x: int, y: int|
                    0 <= x < SCREEN_WIDTH && 0 <= y < SCREEN_HEIGHT && #[trigger] flips(
                        s,
                        x0 as int,
                        y0 as int,
                        n_i,
                        x,
                        y,
                    ) && y < y0 + row && s.display[y][x],
            decreases n - row,
        {
            let py = y0 as usize + row;
            if py < SCREEN_HEIGHT {
                let byte = self.ram[(self.i_reg as usize + row) % RAM_SIZE];
                let mut col: u8 = 0;
                while col < 8
                    invariant
                        row < n < 16,
                        n_i == n,
                        py == y0 + row,
                        py < SCREEN_HEIGHT,
                        col <= 8,
                        byte == s.memory[addr(s.index as int, row as int)],
                        self.inv(),
                        (MachineState { display: s.display, ..self@ }) == s,
                        forall|x: int, y: int|
                            0 <= x < SCREEN_WIDTH && 0 <= y < SCREEN_HEIGHT
                                ==> #[trigger] self.screen@[cell(x, y)] == (s.display[y][x] != (
                            flips(s, x0 as int, y0 as int, n_i, x, y) && (y < py || (y == py && x
                                < x0 + col)))),
                        hit == exists|x: int, y: int|
                            0 <= x < SCREEN_WIDTH && 0 <= y < SCREEN_HEIGHT && #[trigger] flips(
                                s,
                                x0 as int,
                                y0 as int,
                                n_i,
                                x,
                                y,
                            ) && (y < py || (y == py && x < x0 + col)) && s.display[y][x],
                    decreases 8 - col,
                {
                    let px = x0 as usize + col as usize;
                    if px < SCREEN_WIDTH && byte & (0x80u8 >> col) != 0 {
                        let c = py * SCREEN_WIDTH + px;
                        assert(((px - x0) as u8) == col);
                        assert(sprite_bit(s, py - y0, px - x0));
                        assert(flips(s, x0 as int, y0 as int, n_i, px as int, py as int));
                        assert(self.screen@[cell(px as int, py as int)] == s.display[py as int][px as int]);
                        if self.screen[c] {
                            hit = true;
                        }
                        self.screen[c] = !self.screen[c];
                    } else {
                        assert(!flips(s, x0 as int, y0 as int, n_i, px as int, py as int) || px >= SCREEN_WIDTH);
                    }
                    col += 1;
                }
            }
            row += 1;
        }
        self.v_reg[0xF] = if hit { 1 } else { 0 };
        proof {
            assert(self@.display =~~= drawn(s, x0 as int, y0 as int, n_i));
        }
    }

    /// Carries out the instruction `op`, the program counter already pointing past
    /// it. Bit patterns that name no instruction change nothing. On an error the
    /// machine is left as it was.
    pub fn execute(&mut self, op: u16) -> (r: Result<(), EmuError>)
        ensures
            match old(self)@.execute(op) {
                Ok(t) => r == Ok::<(), EmuError>(()) && final(self)@ == t,
                Err(e) => r == Err::<(), EmuError>(e) && final(self)@ == old(self)@,
            },
    {
        proof {
            use_type_invariant(&*self);
            lemma_op_fields(op);
        }
        let family = (op & 0xF000u16) >> 12u16;
        let x = ((op & 0x0F00u16) >> 8u16) as usize;
        let y = ((op & 0x00F0u16) >> 4u16) as usize;
        let n = op & 0x000Fu16;
        let nn = op & 0x00FFu16;
        let nnn = op & 0x0FFFu16;
        let vx = self.v_reg[x];
        let vy = self.v_reg[y];
        if op == 0x00E0 {
            self.screen = [false; SCREEN_CELLS];
            proof {
                assert(self@.display =~~= blank_display());
            }
        } else if op == 0x00EE {
            if self.sp == 0 {
                return Err(EmuError::StackUnderflow);
            }
            self.sp = self.sp - 1;
            self.pc = self.stack[self.sp as usize];
        } else if family == 1 {
            self.pc = nnn;
        } else if family == 2 {
            if self.sp as usize >= STACK_SIZE {
                return Err(EmuError::StackOverflow);
            }
            self.stack[self.sp as usize] = self.pc;
            self.sp = self.sp + 1;
            self.pc = nnn;
        } else if family == 3 {
            if vx as u16 == nn {
                self.skip();
            }
        } else if family == 4 {
            if vx as u16 != nn {
                self.skip();
            }
        } else if family == 5 {
            if n == 0 && vx == vy {
                self.skip();
            }
        } else if family == 6 {
            self.v_reg[x] = nn as u8;
        } else if family == 7 {
            self.v_reg[x] = ((vx as u16 + nn) % 256) as u8;
        } else if family == 8 {
            self.exec_alu(x, y, n);
        } else if family == 9 {
            if n == 0 && vx != vy {
                self.skip();
            }
        } else if family == 0xA {
            self.i_reg = nnn;
        } else if family == 0xB {
            self.pc = (self.v_reg[0] as u16 + nnn) % RAM_SIZE as u16;
        } else if family == 0xC {
            let r = next_random(self.seed);
            self.seed = r;
            self.v_reg[x] = ((r % 256) as u8) & (nn as u8);
        } else if family == 0xD {
            self.exec_draw(vx, vy, n);
        } else if family == 0xE {
            let down = (vx as usize) < NUM_KEYS && self.keys[vx as usize];
            if (nn == 0x9E && down) || (nn == 0xA1 && !down) {
                self.skip();
            }
        } else if family == 0xF {
            self.exec_misc(x, nn);
        }
        Ok(())
    }

    /// Skips the next instruction.
    fn skip(&mut self)
        ensures
            final(self)@ == old(self)@.skip_if(true),
    {
        proof {
            use_type_invariant(&*self);
        }
        self.pc = (self.pc + 2) % RAM_SIZE as u16;
    }

    /// One fetch-decode-execute step: reads the big-endian instruction word at the
    /// program counter, moves the counter past it and carries the instruction out.
    /// On an error the machine is left as it was.
    pub fn tick(&mut self) -> (r: Result<(), EmuError>)
        ensures
            match old(self)@.step() {
                Ok(t) => r == Ok::<(), EmuError>(()) && final(self)@ == t,
                Err(e) => r == Err::<(), EmuError>(e) && final(self)@ == old(self)@,
            },
    {
        proof {
            use_type_invariant(&*self);
        }
        let pc = self.pc;
        let op = ((self.ram[pc as usize] as u16) << 8u16) | (self.ram[(pc as usize + 1)
            % RAM_SIZE] as u16);
        self.pc = (pc + 2) % RAM_SIZE as u16;
        let r = self.execute(op);
        if r.is_err() {
            self.pc = pc;
        }
        r
    }
}

} // verus!
