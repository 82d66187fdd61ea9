//! Properties that relate the operations of the machine model to each other.
use vstd::prelude::*;

use crate::machine::{
    advance, op_family, op_n, op_nnn, op_x, op_y, EmuError, MachineState, MAX_PROGRAM_LEN,
    NUM_REGS, RAM_SIZE, SCREEN_HEIGHT, SCREEN_WIDTH, STACK_SIZE, START_ADDR,
};

verus! {

/// Loading a program that fits puts it byte for byte at the start address on,
/// and a reset afterwards brings memory and every register back to zero.
pub proof fn law_load_then_reset(s: MachineState, program: Seq<u8>)
    requires
        s.wf(),
        program.len() <= MAX_PROGRAM_LEN,
    ensures
        s.load(program).wf(),
        s.load(program).memory.subrange(START_ADDR as int, START_ADDR + program.len()) == program,
        forall|a: int| 0 <= a < RAM_SIZE ==> MachineState::initial().memory[a] == 0,
        forall|k: int| 0 <= k < NUM_REGS ==> MachineState::initial().registers[k] == 0,
        MachineState::initial().index == 0,
        MachineState::initial().sp == 0,
        MachineState::initial().delay == 0,
        MachineState::initial().sound == 0,
{
    assert(s.load(program).memory.subrange(START_ADDR as int, START_ADDR + program.len())
        =~= program);
}

/// A call pushes the address after it and jumps; the return that follows comes
/// back to that address with the stack pointer as it was.
pub proof fn law_call_then_return(s: MachineState, target: u16)
    requires
        s.wf(),
        s.sp < STACK_SIZE,
        target < RAM_SIZE,
    ensures
        s.execute(0x2000u16 | target) is Ok,
        s.execute(0x2000u16 | target)->Ok_0.pc == target,
        s.execute(0x2000u16 | target)->Ok_0.sp == s.sp + 1,
        s.execute(0x2000u16 | target)->Ok_0.execute(0x00EE) == Ok::<MachineState, EmuError>(
            MachineState { stack: s.stack.update(s.sp as int, s.pc), ..s },
        ),
{
    let op = 0x2000u16 | target;
    assert(op_family(op) == 2 && op_nnn(op) == target && op != 0x00E0u16 && op != 0x00EEu16)
        by (bit_vector)
        requires
            op == 0x2000u16 | target,
            target < 4096u16,
    ;
}

/// A call succeeds while fewer than sixteen entries are on the stack and pushes
/// one more; with all sixteen in use it fails with a stack overflow.
pub proof fn law_call_depth(s: MachineState)
    requires
        s.wf(),
        op_family(s.fetch()) == 2,
    ensures
        s.sp < STACK_SIZE ==> s.step() is Ok && s.step()->Ok_0.sp == s.sp + 1
            && s.step()->Ok_0.pc == op_nnn(s.fetch()) && s.step()->Ok_0.stack[s.sp as int]
            == advance(s.pc),
        s.sp == STACK_SIZE ==> s.step() == Err::<MachineState, EmuError>(EmuError::StackOverflow),
{
    let op = s.fetch();
    assert(op_family(op) == 2 ==> op != 0x00E0u16 && op != 0x00EEu16) by (bit_vector);
}

/// A timer step never takes a timer below zero: a zero timer stays at zero and
/// any other counts down by exactly one.
pub proof fn law_timers_floor(s: MachineState)
    ensures
        s.delay == 0 ==> s.timers_advanced().delay == 0,
        s.delay > 0 ==> s.timers_advanced().delay == s.delay - 1,
        s.sound == 0 ==> s.timers_advanced().sound == 0,
        s.sound > 0 ==> s.timers_advanced().sound == s.sound - 1,
{
}

/// Drawing a sprite changes no pixel outside the rectangle of up to eight
/// columns and `n` rows that starts at its coordinates: what falls off the
/// right or bottom edge is clipped, never wrapped to the other side.
pub proof fn law_draw_clips(s: MachineState, op: u16)
    requires
        s.wf(),
        op_family(op) == 0xD,
    ensures
        s.execute(op) is Ok,
        forall|x: int, y: int|
            0 <= x < SCREEN_WIDTH && 0 <= y < SCREEN_HEIGHT && !(s.registers[op_x(op) as int] <= x
                < s.registers[op_x(op) as int] + 8 && s.registers[op_y(op) as int] <= y
                < s.registers[op_y(op) as int] + op_n(op)) ==> #[trigger] s.execute(
                op,
            )->Ok_0.display[y][x] == s.display[y][x],
{
    assert(op_family(op) == 0xD ==> op != 0x00E0u16 && op != 0x00EEu16) by (bit_vector);
    crate::machine::lemma_op_fields(op);
}

/// Every instruction keeps the machine well formed: the program counter stays
/// within memory, the stack pointer within the stack, and every saved return
/// address within memory.
pub proof fn law_step_keeps_wf(s: MachineState, op: u16)
    requires
        s.wf(),
    ensures
        s.execute(op) is Ok ==> s.execute(op)->Ok_0.wf(),
        s.step() is Ok ==> s.step()->Ok_0.wf(),
{
    crate::machine::lemma_op_fields(op);
    crate::machine::lemma_op_fields(s.fetch());
}

/// Adding one register to another leaves the sum modulo 256 and sets register
/// 0xF to 1 exactly when the true sum exceeds 255; subtracting leaves the
/// difference modulo 256 and sets register 0xF to 0 exactly when a borrow occurs.
pub proof fn law_add_sub_flags(s: MachineState, op: u16)
    requires
        s.wf(),
        op_family(op) == 8,
        op_n(op) == 4 || op_n(op) == 5,
        op_x(op) != 0xF,
    ensures
        ({
            let vx = s.registers[op_x(op) as int];
            let vy = s.registers[op_y(op) as int];
            let t = s.execute(op)->Ok_0;
            &&& s.execute(op) is Ok
            &&& op_n(op) == 4 ==> t.registers[op_x(op) as int] == (vx + vy) % 256
                && t.registers[0xF] == (if vx + vy > 255 { 1int } else { 0int })
            &&& op_n(op) == 5 ==> t.registers[op_x(op) as int] == (vx - vy) % 256
                && t.registers[0xF] == (if vx < vy { 0int } else { 1int })
        }),
{
    assert(op_family(op) == 8 ==> op != 0x00E0u16 && op != 0x00EEu16) by (bit_vector);
    crate::machine::lemma_op_fields(op);
}

/// A shift moves a register's value one bit and leaves the bit shifted out in
/// register 0xF.
pub proof fn law_shift_flags(s: MachineState, op: u16)
    requires
        s.wf(),
        op_family(op) == 8,
        op_n(op) == 6 || op_n(op) == 0xE,
        op_x(op) != 0xF,
    ensures
        ({
            let vx = s.registers[op_x(op) as int];
            let t = s.execute(op)->Ok_0;
            &&& s.execute(op) is Ok
            &&& op_n(op) == 6 ==> t.registers[op_x(op) as int] == vx / 2 && t.registers[0xF]
                == vx % 2
            &&& op_n(op) == 0xE ==> t.registers[op_x(op) as int] == (vx * 2) % 256
                && t.registers[0xF] == vx / 128
        }),
{
    assert(op_family(op) == 8 ==> op != 0x00E0u16 && op != 0x00EEu16) by (bit_vector);
    crate::machine::lemma_op_fields(op);
    let vx = s.registers[op_x(op) as int];
    assert(vx >> 1u8 == vx / 2 && vx & 1u8 == vx % 2 && vx >> 7u8 == vx / 128) by (bit_vector);
}

} // verus!
