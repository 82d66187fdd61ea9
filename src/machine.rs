//! The mathematical model of a CHIP-8 machine and the meaning of every
//! instruction, stated as spec functions over that model.
use vstd::prelude::*;

verus! {

/// Width of the framebuffer, in pixels.
pub const SCREEN_WIDTH: usize = 64;

/// Height of the framebuffer, in pixels.
pub const SCREEN_HEIGHT: usize = 32;

/// Number of cells of the framebuffer.
pub const SCREEN_CELLS: usize = 2048;

/// Size of the addressable memory, in bytes.
pub const RAM_SIZE: usize = 4096;

/// Number of general-purpose registers.
pub const NUM_REGS: usize = 16;

/// Depth of the call stack.
pub const STACK_SIZE: usize = 16;

/// Number of keys of the hex keypad.
pub const NUM_KEYS: usize = 16;

/// Address at which programs are loaded and execution starts.
pub const START_ADDR: u16 = 0x200;

/// Largest program that fits between the start address and the end of memory.
pub const MAX_PROGRAM_LEN: usize = 3584;

/// Starting state of the pseudo-random byte generator.
pub const RANDOM_SEED: u16 = 0xACE1;

/// Conditions that the interpreter reports instead of carrying on.
#[derive(Clone, Copy, Debug, PartialEq, Eq, Structural)]
pub enum EmuError {
    /// A program does not fit between the start address and the end of memory.
    CapacityExceeded,
    /// A call was made with all sixteen stack entries in use.
    StackOverflow,
    /// A return was made with an empty call stack.
    StackUnderflow,
}

/// The abstract machine: what every operation of the interpreter is specified over.
/// The framebuffer is a sequence of rows, each a sequence of cells.
pub struct MachineState {
    pub pc: u16,
    pub memory: Seq<u8>,
    pub display: Seq<Seq<bool>>,
    pub registers: Seq<u8>,
    pub index: u16,
    pub sp: u16,
    pub stack: Seq<u16>,
    pub keys: Seq<bool>,
    pub delay: u8,
    pub sound: u8,
    pub seed: u16,
}

/// A framebuffer with every pixel off.
pub open spec fn blank_display() -> Seq<Seq<bool>> {
    Seq::new(SCREEN_HEIGHT as nat, |y: int| Seq::new(SCREEN_WIDTH as nat, |x: int| false))
}

/// Address `k` bytes after `base`, wrapped into addressable memory.
pub open spec fn addr(base: int, k: int) -> int {
    (base + k) % (RAM_SIZE as int)
}

/// The next program counter after skipping one two-byte instruction.
pub open spec fn advance(pc: u16) -> u16 {
    ((pc + 2) % (RAM_SIZE as int)) as u16
}

/// Next state of the 16-bit xorshift generator that supplies random bytes.
pub open spec fn next_seed(x: u16) -> u16 {
    let a = x ^ (x << 7u16);
    let b = a ^ (a >> 9u16);
    b ^ (b << 8u16)
}

/// The instruction family: the high nibble.
pub open spec fn op_family(op: u16) -> u16 {
    (op & 0xF000u16) >> 12u16
}

/// The first register operand: the second nibble.
pub open spec fn op_x(op: u16) -> u16 {
    (op & 0x0F00u16) >> 8u16
}

/// The second register operand: the third nibble.
pub open spec fn op_y(op: u16) -> u16 {
    (op & 0x00F0u16) >> 4u16
}

/// The low nibble.
pub open spec fn op_n(op: u16) -> u16 {
    op & 0x000Fu16
}

/// The low byte, an immediate value.
pub open spec fn op_nn(op: u16) -> u16 {
    op & 0x00FFu16
}

/// The low twelve bits, an address.
pub open spec fn op_nnn(op: u16) -> u16 {
    op & 0x0FFFu16
}

/// Bounds of the fields of an instruction word.
pub proof fn lemma_op_fields(op: u16)
    ensures
        op_family(op) < 16,
        op_x(op) < 16,
        op_y(op) < 16,
        op_n(op) < 16,
        op_nn(op) < 256,
        op_nnn(op) < 4096,
{
    assert((op & 0xF000u16) >> 12u16 < 16) by (bit_vector);
    assert((op & 0x0F00u16) >> 8u16 < 16) by (bit_vector);
    assert((op & 0x00F0u16) >> 4u16 < 16) by (bit_vector);
    assert(op & 0x000Fu16 < 16) by (bit_vector);
    assert(op & 0x00FFu16 < 256) by (bit_vector);
    assert(op & 0x0FFFu16 < 4096) by (bit_vector);
}

/// Whether sprite row `row`, column `col` is set: bit `7 - col` of the sprite
/// byte `row` bytes after the index register.
pub open spec fn sprite_bit(s: MachineState, row: int, col: int) -> bool {
    s.memory[addr(s.index as int, row)] & (0x80u8 >> (col as u8)) != 0
}

/// Whether drawing an `n`-row sprite at (`x0`, `y0`) flips the cell (`x`, `y`).
/// Cells exist only on the screen, so what falls off it is clipped.
pub open spec fn flips(s: MachineState, x0: int, y0: int, n: int, x: int, y: int) -> bool {
    x0 <= x < x0 + 8 && y0 <= y < y0 + n && sprite_bit(s, y - y0, x - x0)
}

/// Whether drawing turns some lit pixel off.
pub open spec fn collides(s: MachineState, x0: int, y0: int, n: int) -> bool {
    exists|x: int, y: int|
        0 <= x < SCREEN_WIDTH && 0 <= y < SCREEN_HEIGHT && #[trigger] flips(s, x0, y0, n, x, y)
            && s.display[y][x]
}

/// The framebuffer after XOR-drawing the sprite.
pub open spec fn drawn(s: MachineState, x0: int, y0: int, n: int) -> Seq<Seq<bool>> {
    Seq::new(
        SCREEN_HEIGHT as nat,
        |y: int| Seq::new(SCREEN_WIDTH as nat, |x: int| s.display[y][x] != flips(s, x0, y0, n, x, y)),
    )
}

/// Whether the register value `v` names a key that is held down.
pub open spec fn key_down(s: MachineState, v: u8) -> bool {
    v < NUM_KEYS && s.keys[v as int]
}

/// `k` is the lowest index of a key that is held down.
pub open spec fn lowest_key(keys: Seq<bool>, k: int) -> bool {
    0 <= k < NUM_KEYS && keys[k] && forall|j: int| 0 <= j < k ==> !#[trigger] keys[j]
}

/// Memory after storing registers `0..=x` from the index register on.
pub open spec fn stored(s: MachineState, x: int) -> Seq<u8> {
    Seq::new(
        RAM_SIZE as nat,
        |a: int|
            if (a - s.index) % (RAM_SIZE as int) <= x {
                s.registers[(a - s.index) % (RAM_SIZE as int)]
            } else {
                s.memory[a]
            },
    )
}

/// Registers after loading registers `0..=x` from the index register on.
pub open spec fn loaded_regs(s: MachineState, x: int) -> Seq<u8> {
    Seq::new(
        NUM_REGS as nat,
        |k: int|
            if k <= x {
                s.memory[addr(s.index as int, k)]
            } else {
                s.registers[k]
            },
    )
}

impl MachineState {
    /// The fixed sizes of the state, and the program counter and stack pointer in range.
    pub open spec fn wf(self) -> bool {
        &&& self.memory.len() == RAM_SIZE
        &&& self.display.len() == SCREEN_HEIGHT
        &&& forall|y: int| 0 <= y < SCREEN_HEIGHT ==> (#[trigger] self.display[y]).len() == SCREEN_WIDTH
        &&& self.registers.len() == NUM_REGS
        &&& self.stack.len() == STACK_SIZE
        &&& self.keys.len() == NUM_KEYS
        &&& self.pc < RAM_SIZE
        &&& self.sp <= STACK_SIZE
        &&& forall|i: int| 0 <= i < STACK_SIZE ==> #[trigger] self.stack[i] < RAM_SIZE
    }

    /// The state after construction or reset.
    pub open spec fn initial() -> MachineState {
        MachineState {
            pc: START_ADDR,
            memory: Seq::new(RAM_SIZE as nat, |a: int| 0u8),
            display: blank_display(),
            registers: Seq::new(NUM_REGS as nat, |k: int| 0u8),
            index: 0,
            sp: 0,
            stack: Seq::new(STACK_SIZE as nat, |k: int| 0u16),
            keys: Seq::new(NUM_KEYS as nat, |k: int| false),
            delay: 0,
            sound: 0,
            seed: RANDOM_SEED,
        }
    }

    /// The state with register `x` set to `v`.
    pub open spec fn with_reg(self, x: int, v: u8) -> MachineState {
        MachineState { registers: self.registers.update(x, v), ..self }
    }

    /// The state with the next instruction skipped when `c` holds.
    pub open spec fn skip_if(self, c: bool) -> MachineState {
        if c {
            MachineState { pc: advance(self.pc), ..self }
        } else {
            self
        }
    }

    /// The instruction word at the program counter, big-endian.
    pub open spec fn fetch(self) -> u16 {
        ((self.memory[self.pc as int] as u16) << 8u16) | (self.memory[addr(
            self.pc as int,
            1,
        )] as u16)
    }

    /// The state after loading `program` at the start address.
    pub open spec fn load(self, program: Seq<u8>) -> MachineState {
        MachineState {
            memory: Seq::new(
                RAM_SIZE as nat,
                |a: int|
                    if START_ADDR <= a < START_ADDR + program.len() {
                        program[a - START_ADDR]
                    } else {
                        self.memory[a]
                    },
            ),
            ..self
        }
    }

    /// The state after one 60 Hz timer step: each non-zero timer counts down by one.
    pub open spec fn timers_advanced(self) -> MachineState {
        MachineState {
            delay: if self.delay > 0 { (self.delay - 1) as u8 } else { 0 },
            sound: if self.sound > 0 { (self.sound - 1) as u8 } else { 0 },
            ..self
        }
    }

    /// The register-to-register family 8XYN.
    pub open spec fn alu(self, x: int, y: int, n: u16) -> MachineState {
        let vx = self.registers[x];
        let vy = self.registers[y];
        if n == 0 {
            self.with_reg(x, vy)
        } else if n == 1 {
            self.with_reg(x, vx | vy)
        } else if n == 2 {
            self.with_reg(x, vx & vy)
        } else if n == 3 {
            self.with_reg(x, vx ^ vy)
        } else if n == 4 {
            self.with_reg(x, ((vx + vy) % 256) as u8).with_reg(
                0xF,
                if vx + vy > 255 { 1 } else { 0 },
            )
        } else if n == 5 {
            self.with_reg(x, ((vx - vy + 256) % 256) as u8).with_reg(
                0xF,
                if vx >= vy { 1 } else { 0 },
            )
        } else if n == 6 {
            self.with_reg(x, vx >> 1u8).with_reg(0xF, vx & 1u8)
        } else if n == 7 {
            self.with_reg(x, ((vy - vx + 256) % 256) as u8).with_reg(
                0xF,
                if vy >= vx { 1 } else { 0 },
            )
        } else if n == 0xE {
            self.with_reg(x, ((vx * 2) % 256) as u8).with_reg(0xF, vx >> 7u8)
        } else {
            self
        }
    }

    /// The family FXNN: timers, keys, the index register and memory transfers.
    pub open spec fn misc(self, x: int, nn: u16) -> MachineState {
        let vx = self.registers[x];
        if nn == 0x07 {
            self.with_reg(x, self.delay)
        } else if nn == 0x0A {
            if exists|k: int| lowest_key(self.keys, k) {
                self.with_reg(x, (choose|k: int| lowest_key(self.keys, k)) as u8)
            } else {
                MachineState { pc: ((self.pc + 4094) % (RAM_SIZE as int)) as u16, ..self }
            }
        } else if nn == 0x15 {
            MachineState { delay: vx, ..self }
        } else if nn == 0x18 {
            MachineState { sound: vx, ..self }
        } else if nn == 0x1E {
            MachineState { index: ((self.index + vx) % 0x10000) as u16, ..self }
        } else if nn == 0x29 {
            MachineState { index: (vx * 5) as u16, ..self }
        } else if nn == 0x33 {
            let i = self.index as int;
            MachineState {
                memory: self.memory.update(addr(i, 0), vx / 100).update(
                    addr(i, 1),
                    (vx / 10) % 10,
                ).update(addr(i, 2), vx % 10),
                ..self
            }
        } else if nn == 0x55 {
            MachineState { memory: stored(self, x), ..self }
        } else if nn == 0x65 {
            MachineState { registers: loaded_regs(self, x), ..self }
        } else {
            self
        }
    }

    /// The effect of the instruction `op` on a state whose program counter already
    /// points past it. Bit patterns that name no instruction leave the state as it is.
    pub open spec fn execute(self, op: u16) -> Result<MachineState, EmuError> {
        let family = op_family(op);
        let x = op_x(op) as int;
        let y = op_y(op) as int;
        let n = op_n(op);
        let nn = op_nn(op);
        let nnn = op_nnn(op);
        let vx = self.registers[x];
        let vy = self.registers[y];
        if op == 0x00E0 {
            Ok(MachineState { display: blank_display(), ..self })
        } else if op == 0x00EE {
            if self.sp == 0 {
                Err(EmuError::StackUnderflow)
            } else {
                Ok(
                    MachineState {
                        sp: (self.sp - 1) as u16,
                        pc: self.stack[self.sp - 1],
                        ..self
                    },
                )
            }
        } else if family == 1 {
            Ok(MachineState { pc: nnn, ..self })
        } else if family == 2 {
            if self.sp >= STACK_SIZE {
                Err(EmuError::StackOverflow)
            } else {
                Ok(
                    MachineState {
                        stack: self.stack.update(self.sp as int, self.pc),
                        sp: (self.sp + 1) as u16,
                        pc: nnn,
                        ..self
                    },
                )
            }
        } else if family == 3 {
            Ok(self.skip_if(vx == nn))
        } else if family == 4 {
            Ok(self.skip_if(vx != nn))
        } else if family == 5 {
            Ok(self.skip_if(n == 0 && vx == vy))
        } else if family == 6 {
            Ok(self.with_reg(x, nn as u8))
        } else if family == 7 {
            Ok(self.with_reg(x, ((vx + nn) % 256) as u8))
        } else if family == 8 {
            Ok(self.alu(x, y, n))
        } else if family == 9 {
            Ok(self.skip_if(n == 0 && vx != vy))
        } else if family == 0xA {
            Ok(MachineState { index: nnn, ..self })
        } else if family == 0xB {
            Ok(MachineState { pc: ((self.registers[0] + nnn) % (RAM_SIZE as int)) as u16, ..self })
        } else if family == 0xC {
            let r = next_seed(self.seed);
            Ok(MachineState { seed: r, ..self.with_reg(x, ((r % 256) as u8) & (nn as u8)) })
        } else if family == 0xD {
            let hit = collides(self, vx as int, vy as int, n as int);
            Ok(
                MachineState {
                    display: drawn(self, vx as int, vy as int, n as int),
                    ..self.with_reg(0xF, if hit { 1 } else { 0 })
                },
            )
        } else if family == 0xE {
            if nn == 0x9E {
                Ok(self.skip_if(key_down(self, vx)))
            } else if nn == 0xA1 {
                Ok(self.skip_if(!key_down(self, vx)))
            } else {
                Ok(self)
            }
        } else if family == 0xF {
            Ok(self.misc(x, nn))
        } else {
            Ok(self)
        }
    }

    /// One fetch-decode-execute step. On an error the state is left as it was.
    pub open spec fn step(self) -> Result<MachineState, EmuError> {
        MachineState { pc: advance(self.pc), ..self }.execute(self.fetch())
    }
}

} // verus!
