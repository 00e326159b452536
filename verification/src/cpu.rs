//! The execution engine: the register file, program counter, index
//! register, display buffer and input snapshots, driven one instruction per
//! tick through fetch, decode and execute. Memory, the stack and the timer
//! pair are mutated in response to decoded operations.

pub mod opcode;
pub mod opcode_impl;

use vstd::prelude::*;
use crate::memory::{Memory, MEMORY_SIZE, ROM_INIT_ADDRESS, FONT_INIT_ADDRESS, FONT_WIDTH,
    spec_read_instruction};
use crate::stack::Stack;
use crate::timer::Timer;
use self::opcode::{Opcode, opcode_wf, spec_decode, lemma_decode_wf};
use self::opcode_impl::{ShiftBehavior, display_rel, decimal_digits, stored_mem, loaded_regs,
    spec_first_released_key};

verus! {

/// Width of the display grid in cells.
pub const DISPLAY_WIDTH: usize = 64;

/// Height of the display grid in cells.
pub const DISPLAY_HEIGHT: usize = 32;

/// Number of general-purpose registers.
pub const NUM_REGISTERS: usize = 16;

/// Index of the register that several operations reuse to report a
/// carry, borrow, collision or overflow flag.
pub const FLAG_REGISTER: usize = 0xF;

/// Number of key indices in an input snapshot.
pub const NUM_KEYS: usize = 16;

/// Instructions per second at which the external driver is expected to
/// call `tick`.
pub const CPU_FREQUENCY: u32 = 700;

/// A fatal condition: the interpreter is either in a valid, fully-defined
/// state or it halts. No error is retried.
#[derive(Debug, Clone, Copy, PartialEq, Eq, Structural)]
pub enum ExecError {
    /// The instruction word matches no recognized operation: the program is
    /// invalid for this interpreter.
    UnknownOpcode,
    /// The program asked for a native machine-language routine, which this
    /// interpreter does not provide.
    MachineLanguageRoutine,
    /// A subroutine return found no return address: corrupt control flow.
    StackUnderflow,
    /// A fetch or an index-register-addressed access fell outside memory.
    MemoryOutOfBounds,
}

pub struct Cpu<B: ShiftBehavior> {
    /// Program counter; addresses the next instruction word.
    pub pc: usize,
    /// 16-bit index register, the memory pointer of the sprite,
    /// decimal-conversion and block store/load operations.
    pub index_reg: usize,
    /// The general-purpose 8-bit registers.
    pub var_regs: [u8; NUM_REGISTERS],
    /// Return addresses of the subroutines currently entered.
    pub stack: Stack<u16>,
    /// The monochrome display grid, one cell per pixel, 0 or 1.
    pub display: [[u8; DISPLAY_WIDTH]; DISPLAY_HEIGHT],
    /// The input snapshot of the current tick; nonzero means pressed.
    pub input_state: [u8; NUM_KEYS],
    /// The input snapshot of the previous tick.
    pub last_input_state: [u8; NUM_KEYS],
    /// The chosen policy for the historically ambiguous shift operations.
    pub shift_logic: B,
    /// Instructions per second the driver is expected to run.
    pub op_frequency: u32,
}

impl<B: ShiftBehavior> Cpu<B> {
    /// The display grid as a sequence of rows of cells.
    pub open spec fn disp(self) -> Seq<Seq<u8>> {
        Seq::new(DISPLAY_HEIGHT as nat, |y: int| self.display[y]@)
    }

    /// Well-formedness: the program counter and the index register hold
    /// 16-bit values and every display cell is 0 or 1.
    pub open spec fn wf(self) -> bool {
        &&& self.pc <= 0xFFFF
        &&& self.index_reg <= 0xFFFF
        &&& forall|y: int, x: int|
            0 <= y < DISPLAY_HEIGHT && 0 <= x < DISPLAY_WIDTH ==> #[trigger] self.display[y][x] <= 1
    }
}

/// The fields that no operation ever writes are equal.
pub open spec fn same_fixed_fields<B: ShiftBehavior>(pre: Cpu<B>, post: Cpu<B>) -> bool {
    &&& post.input_state == pre.input_state
    &&& post.last_input_state == pre.last_input_state
    &&& post.shift_logic == pre.shift_logic
    &&& post.op_frequency == pre.op_frequency
}

/// No state change: every field is equal, the stack compared by its
/// contents.
pub open spec fn cpu_unchanged<B: ShiftBehavior>(pre: Cpu<B>, post: Cpu<B>) -> bool {
    &&& same_fixed_fields(pre, post)
    &&& post.pc == pre.pc
    &&& post.index_reg == pre.index_reg
    &&& post.var_regs == pre.var_regs
    &&& post.stack.vector@ == pre.stack.vector@
    &&& post.display == pre.display
}

pub open spec fn only_regs_changed<B: ShiftBehavior>(pre: Cpu<B>, post: Cpu<B>) -> bool {
    &&& same_fixed_fields(pre, post)
    &&& post.pc == pre.pc
    &&& post.index_reg == pre.index_reg
    &&& post.stack.vector@ == pre.stack.vector@
    &&& post.display == pre.display
}

pub open spec fn only_pc_changed<B: ShiftBehavior>(pre: Cpu<B>, post: Cpu<B>) -> bool {
    &&& same_fixed_fields(pre, post)
    &&& post.var_regs == pre.var_regs
    &&& post.index_reg == pre.index_reg
    &&& post.stack.vector@ == pre.stack.vector@
    &&& post.display == pre.display
}

pub open spec fn only_index_changed<B: ShiftBehavior>(pre: Cpu<B>, post: Cpu<B>) -> bool {
    &&& same_fixed_fields(pre, post)
    &&& post.pc == pre.pc
    &&& post.var_regs == pre.var_regs
    &&& post.stack.vector@ == pre.stack.vector@
    &&& post.display == pre.display
}

pub open spec fn only_pc_and_stack_changed<B: ShiftBehavior>(pre: Cpu<B>, post: Cpu<B>) -> bool {
    &&& same_fixed_fields(pre, post)
    &&& post.var_regs == pre.var_regs
    &&& post.index_reg == pre.index_reg
    &&& post.display == pre.display
}

pub open spec fn only_index_and_regs_changed<B: ShiftBehavior>(pre: Cpu<B>, post: Cpu<B>) -> bool {
    &&& same_fixed_fields(pre, post)
    &&& post.pc == pre.pc
    &&& post.stack.vector@ == pre.stack.vector@
    &&& post.display == pre.display
}

pub open spec fn only_display_changed<B: ShiftBehavior>(pre: Cpu<B>, post: Cpu<B>) -> bool {
    &&& same_fixed_fields(pre, post)
    &&& post.pc == pre.pc
    &&& post.index_reg == pre.index_reg
    &&& post.var_regs == pre.var_regs
    &&& post.stack.vector@ == pre.stack.vector@
}

pub open spec fn only_display_and_regs_changed<B: ShiftBehavior>(pre: Cpu<B>, post: Cpu<B>) -> bool {
    &&& same_fixed_fields(pre, post)
    &&& post.pc == pre.pc
    &&& post.index_reg == pre.index_reg
    &&& post.stack.vector@ == pre.stack.vector@
}

pub open spec fn only_regs_and_pc_changed<B: ShiftBehavior>(pre: Cpu<B>, post: Cpu<B>) -> bool {
    &&& same_fixed_fields(pre, post)
    &&& post.index_reg == pre.index_reg
    &&& post.stack.vector@ == pre.stack.vector@
    &&& post.display == pre.display
}

impl<B: ShiftBehavior> Cpu<B> {
    /// A fresh engine: the program counter at the load address, every
    /// register, display cell and input key zero, an empty call stack.
    pub fn new(shift_logic: B) -> (c: Cpu<B>)
        ensures
            c.wf(),
            c.pc == ROM_INIT_ADDRESS,
            c.index_reg == 0,
            c.var_regs@ == Seq::new(NUM_REGISTERS as nat, |i: int| 0u8),
            c.stack.vector@ == Seq::<u16>::empty(),
            forall|y: int, x: int|
                0 <= y < DISPLAY_HEIGHT && 0 <= x < DISPLAY_WIDTH ==> #[trigger] c.display[y][x] == 0,
            c.input_state@ == Seq::new(NUM_KEYS as nat, |i: int| 0u8),
            c.last_input_state@ == Seq::new(NUM_KEYS as nat, |i: int| 0u8),
            c.shift_logic == shift_logic,
            c.op_frequency == CPU_FREQUENCY,
    {
        let c = Cpu {
            pc: ROM_INIT_ADDRESS,
            index_reg: 0,
            var_regs: [0; NUM_REGISTERS],
            stack: Stack::new(),
            display: [[0; DISPLAY_WIDTH]; DISPLAY_HEIGHT],
            input_state: [0; NUM_KEYS],
            last_input_state: [0; NUM_KEYS],
            shift_logic,
            op_frequency: CPU_FREQUENCY,
        };
        proof {
            assert(c.var_regs@ =~= Seq::new(NUM_REGISTERS as nat, |i: int| 0u8));
            assert(c.input_state@ =~= Seq::new(NUM_KEYS as nat, |i: int| 0u8));
            assert(c.last_input_state@ =~= Seq::new(NUM_KEYS as nat, |i: int| 0u8));
        }
        c
    }

    /// Shifts the current snapshot into the previous one and installs the
    /// snapshot the driver supplied for this tick.
    pub fn update_input_state(&mut self, input_state: [u8; NUM_KEYS])
        ensures
            *final(self) == (Cpu {
                input_state,
                last_input_state: old(self).input_state,
                ..*old(self)
            }),
    {
        self.last_input_state = self.input_state;
        self.input_state = input_state;
    }

    /// A read-only view of the display grid; nonzero cells are lit.
    pub fn get_display(&self) -> (r: &[[u8; DISPLAY_WIDTH]; DISPLAY_HEIGHT])
        ensures
            *r == self.display,
    {
        &self.display
    }

    pub fn get_cpu_frequency(&self) -> (r: u32)
        ensures
            r == self.op_frequency,
    {
        self.op_frequency
    }

    /// Advances the program counter past one instruction word.
    pub(crate) fn next_opcode(&mut self)
        requires
            old(self).pc + 2 <= 0xFFFF,
        ensures
            *final(self) == (Cpu { pc: (old(self).pc + 2) as usize, ..*old(self) }),
    {
        self.pc += 2;
    }

    /// Rewinds the program counter to the previous instruction word.
    pub(crate) fn prev_opcode(&mut self)
        requires
            old(self).pc >= 2,
        ensures
            *final(self) == (Cpu { pc: (old(self).pc - 2) as usize, ..*old(self) }),
    {
        self.pc -= 2;
    }

    /// Reads the instruction word at the program counter and advances the
    /// counter past it. A counter at which no whole word fits in memory is
    /// the fatal out-of-bounds error, with the state unchanged.
    fn fetch(&mut self, memory: &Memory) -> (r: Result<u16, ExecError>)
        requires
            old(self).wf(),
        ensures
            final(self).wf(),
            old(self).pc + 1 < MEMORY_SIZE ==> {
                &&& r == Ok::<u16, ExecError>(spec_read_instruction(
                    memory.data@,
                    old(self).pc as int,
                ))
                &&& *final(self) == (Cpu { pc: (old(self).pc + 2) as usize, ..*old(self) })
                &&& final(self).pc <= MEMORY_SIZE
            },
            old(self).pc + 1 >= MEMORY_SIZE ==> {
                &&& r == Err::<u16, ExecError>(ExecError::MemoryOutOfBounds)
                &&& *final(self) == *old(self)
            },
    {
        if self.pc + 1 >= MEMORY_SIZE {
            return Err(ExecError::MemoryOutOfBounds);
        }
        let instruction = memory.read_instruction(self.pc);
        self.next_opcode();
        Ok(instruction)
    }

    /// Decodes an instruction word into its tagged operation.
    fn decode(&self, instruction: u16) -> (op: Opcode)
        ensures
            op == spec_decode(instruction),
    {
        Opcode::from(instruction)
    }

    /// Writes the flag register.
    pub(crate) fn set_flag_register(&mut self, value: u8)
        ensures
            final(self).var_regs@ == old(self).var_regs@.update(FLAG_REGISTER as int, value),
            only_regs_changed(*old(self), *final(self)),
    {
        self.var_regs[FLAG_REGISTER] = value;
    }
}

/// What executing one decoded operation does to the engine, memory and the
/// timer pair, and which result it returns. `rnd` is the byte the random
/// operation drew; no other operation depends on it.
pub open spec fn execute_rel<B: ShiftBehavior>(
    pre: Cpu<B>,
    mpre: Memory,
    tpre: Timer,
    op: Opcode,
    rnd: u8,
    post: Cpu<B>,
    mpost: Memory,
    tpost: Timer,
    r: Result<(), ExecError>,
) -> bool {
    let same_mem = mpost.data@ == mpre.data@;
    let same_timer = tpost == tpre;
    let ok = r == Ok::<(), ExecError>(());
    match op {
        Opcode::MachineLanguageRoutine(_) => {
            &&& r == Err::<(), ExecError>(ExecError::MachineLanguageRoutine)
            &&& cpu_unchanged(pre, post)
            &&& same_mem
            &&& same_timer
        },
        Opcode::Clear => {
            &&& ok
            &&& only_display_changed(pre, post)
            &&& forall|y: int, x: int|
                0 <= y < DISPLAY_HEIGHT && 0 <= x < DISPLAY_WIDTH
                    ==> #[trigger] post.display[y][x] == 0
            &&& same_mem
            &&& same_timer
        },
        Opcode::SubroutineReturn => {
            &&& same_mem
            &&& same_timer
            &&& if pre.stack.vector@.len() == 0 {
                &&& r == Err::<(), ExecError>(ExecError::StackUnderflow)
                &&& cpu_unchanged(pre, post)
            } else {
                &&& ok
                &&& only_pc_and_stack_changed(pre, post)
                &&& post.pc == pre.stack.vector@.last() as usize
                &&& post.stack.vector@ == pre.stack.vector@.drop_last()
            }
        },
        Opcode::SubroutineCall(address) => {
            &&& ok
            &&& only_pc_and_stack_changed(pre, post)
            &&& post.stack.vector@ == pre.stack.vector@.push(pre.pc as u16)
            &&& post.pc == address
            &&& same_mem
            &&& same_timer
        },
        Opcode::Jump(address) => {
            &&& ok
            &&& only_pc_changed(pre, post)
            &&& post.pc == address
            &&& same_mem
            &&& same_timer
        },
        Opcode::SkipEqVal(x, value) => {
            &&& ok
            &&& only_pc_changed(pre, post)
            &&& post.pc == if pre.var_regs[x as int] == value { pre.pc + 2 } else { pre.pc as int }
            &&& same_mem
            &&& same_timer
        },
        Opcode::SkipNotEqVal(x, value) => {
            &&& ok
            &&& only_pc_changed(pre, post)
            &&& post.pc == if pre.var_regs[x as int] != value { pre.pc + 2 } else { pre.pc as int }
            &&& same_mem
            &&& same_timer
        },
        Opcode::SkipEqReg(x, y) => {
            &&& ok
            &&& only_pc_changed(pre, post)
            &&& post.pc == if pre.var_regs[x as int] == pre.var_regs[y as int] {
                pre.pc + 2
            } else {
                pre.pc as int
            }
            &&& same_mem
            &&& same_timer
        },
        Opcode::SkipNotEqReg(x, y) => {
            &&& ok
            &&& only_pc_changed(pre, post)
            &&& post.pc == if pre.var_regs[x as int] != pre.var_regs[y as int] {
                pre.pc + 2
            } else {
                pre.pc as int
            }
            &&& same_mem
            &&& same_timer
        },
        Opcode::SetValueToRegister(x, value) => {
            &&& ok
            &&& only_regs_changed(pre, post)
            &&& post.var_regs@ == pre.var_regs@.update(x as int, value)
            &&& same_mem
            &&& same_timer
        },
        Opcode::AddValueToRegister(x, value) => {
            &&& ok
            &&& only_regs_changed(pre, post)
            &&& post.var_regs@ == pre.var_regs@.update(
                x as int,
                ((pre.var_regs[x as int] + value) % 256) as u8,
            )
            &&& same_mem
            &&& same_timer
        },
        Opcode::CopyRegister(x, y) => {
            &&& ok
            &&& only_regs_changed(pre, post)
            &&& post.var_regs@ == pre.var_regs@.update(x as int, pre.var_regs[y as int])
            &&& same_mem
            &&& same_timer
        },
        Opcode::BinaryOR(x, y) => {
            &&& ok
            &&& only_regs_changed(pre, post)
            &&& post.var_regs@ == pre.var_regs@.update(
                x as int,
                pre.var_regs[x as int] | pre.var_regs[y as int],
            )
            &&& same_mem
            &&& same_timer
        },
        Opcode::BinaryAND(x, y) => {
            &&& ok
            &&& only_regs_changed(pre, post)
            &&& post.var_regs@ == pre.var_regs@.update(
                x as int,
                pre.var_regs[x as int] & pre.var_regs[y as int],
            )
            &&& same_mem
            &&& same_timer
        },
        Opcode::BinaryXOR(x, y) => {
            &&& ok
            &&& only_regs_changed(pre, post)
            &&& post.var_regs@ == pre.var_regs@.update(
                x as int,
                pre.var_regs[x as int] ^ pre.var_regs[y as int],
            )
            &&& same_mem
            &&& same_timer
        },
        Opcode::AddRegister(x, y) => {
            &&& ok
            &&& only_regs_changed(pre, post)
            &&& post.var_regs@ == pre.var_regs@
                .update(
                    FLAG_REGISTER as int,
                    if pre.var_regs[x as int] + pre.var_regs[y as int] > 255 { 1u8 } else { 0u8 },
                )
                .update(
                    x as int,
                    ((pre.var_regs[x as int] + pre.var_regs[y as int]) % 256) as u8,
                )
            &&& same_mem
            &&& same_timer
        },
        Opcode::SubtractRegister(x, y) => {
            &&& ok
            &&& only_regs_changed(pre, post)
            &&& post.var_regs@ == pre.var_regs@
                .update(
                    FLAG_REGISTER as int,
                    if pre.var_regs[x as int] >= pre.var_regs[y as int] { 1u8 } else { 0u8 },
                )
                .update(
                    x as int,
                    ((pre.var_regs[x as int] - pre.var_regs[y as int]) % 256) as u8,
                )
            &&& same_mem
            &&& same_timer
        },
        Opcode::NegativeSubtractRegister(x, y) => {
            &&& ok
            &&& only_regs_changed(pre, post)
            &&& post.var_regs@ == pre.var_regs@
                .update(
                    FLAG_REGISTER as int,
                    if pre.var_regs[y as int] >= pre.var_regs[x as int] { 1u8 } else { 0u8 },
                )
                .update(
                    x as int,
                    ((pre.var_regs[y as int] - pre.var_regs[x as int]) % 256) as u8,
                )
            &&& same_mem
            &&& same_timer
        },
        Opcode::ShiftRegisterLeft(x, y) => {
            let src = B::spec_shift_source(pre.var_regs[x as int], pre.var_regs[y as int]);
            &&& ok
            &&& only_regs_changed(pre, post)
            &&& post.var_regs@ == pre.var_regs@
                .update(FLAG_REGISTER as int, if src & 0x80 != 0 { 1u8 } else { 0u8 })
                .update(x as int, src << 1)
            &&& same_mem
            &&& same_timer
        },
        Opcode::ShiftRegisterRight(x, y) => {
            let src = B::spec_shift_source(pre.var_regs[x as int], pre.var_regs[y as int]);
            &&& ok
            &&& only_regs_changed(pre, post)
            &&& post.var_regs@ == pre.var_regs@
                .update(FLAG_REGISTER as int, src & 0x1)
                .update(x as int, src >> 1)
            &&& same_mem
            &&& same_timer
        },
        Opcode::SetIndexRegister(value) => {
            &&& ok
            &&& only_index_changed(pre, post)
            &&& post.index_reg == value
            &&& same_mem
            &&& same_timer
        },
        Opcode::JumpOffset(address) => {
            &&& ok
            &&& only_pc_changed(pre, post)
            &&& post.pc == address + pre.var_regs[0]
            &&& same_mem
            &&& same_timer
        },
        Opcode::Random(x, mask) => {
            &&& ok
            &&& only_regs_changed(pre, post)
            &&& post.var_regs@ == pre.var_regs@.update(x as int, rnd & mask)
            &&& same_mem
            &&& same_timer
        },
        Opcode::Display(x, y, n) => {
            &&& display_rel(pre, mpre, x, y, n, post, r)
            &&& same_mem
            &&& same_timer
        },
        Opcode::SkipIfKeyPressed(x) => {
            &&& ok
            &&& only_pc_changed(pre, post)
            &&& post.pc == if pre.input_state[(pre.var_regs[x as int] & 0xF) as int] > 0 {
                pre.pc + 2
            } else {
                pre.pc as int
            }
            &&& same_mem
            &&& same_timer
        },
        Opcode::SkipIfKeyNotPressed(x) => {
            &&& ok
            &&& only_pc_changed(pre, post)
            &&& post.pc == if pre.input_state[(pre.var_regs[x as int] & 0xF) as int] == 0 {
                pre.pc + 2
            } else {
                pre.pc as int
            }
            &&& same_mem
            &&& same_timer
        },
        Opcode::CopyDelayTimerValue(x) => {
            &&& ok
            &&& only_regs_changed(pre, post)
            &&& post.var_regs@ == pre.var_regs@.update(x as int, tpre.delay)
            &&& same_mem
            &&& same_timer
        },
        Opcode::SetDelayTimer(x) => {
            &&& ok
            &&& cpu_unchanged(pre, post)
            &&& same_mem
            &&& tpost == (Timer { delay: pre.var_regs[x as int], ..tpre })
        },
        Opcode::SetSoundTimer(x) => {
            &&& ok
            &&& cpu_unchanged(pre, post)
            &&& same_mem
            &&& tpost == (Timer { sound: pre.var_regs[x as int], ..tpre })
        },
        Opcode::AddIndexRegister(x) => {
            &&& ok
            &&& only_index_and_regs_changed(pre, post)
            &&& post.index_reg == (pre.index_reg + pre.var_regs[x as int]) % 0x10000
            &&& post.var_regs@ == if pre.index_reg + pre.var_regs[x as int] > 0x1000 {
                pre.var_regs@.update(FLAG_REGISTER as int, 1u8)
            } else {
                pre.var_regs@
            }
            &&& same_mem
            &&& same_timer
        },
        Opcode::GetKey(x) => {
            let first = spec_first_released_key(pre.input_state, pre.last_input_state, 0);
            &&& ok
            &&& same_mem
            &&& same_timer
            &&& if first < 16 {
                &&& only_regs_changed(pre, post)
                &&& post.var_regs@ == pre.var_regs@.update(x as int, first as u8)
            } else {
                &&& only_pc_changed(pre, post)
                &&& post.pc == pre.pc - 2
            }
        },
        Opcode::FontCharacter(x) => {
            &&& ok
            &&& only_index_changed(pre, post)
            &&& post.index_reg == FONT_INIT_ADDRESS + FONT_WIDTH * (pre.var_regs[x as int] & 0x0F)
            &&& same_mem
            &&& same_timer
        },
        Opcode::DecimalConversion(x) => {
            let ds = decimal_digits(pre.var_regs[x as int]);
            &&& cpu_unchanged(pre, post)
            &&& same_timer
            &&& if pre.index_reg + ds.len() > MEMORY_SIZE {
                &&& r == Err::<(), ExecError>(ExecError::MemoryOutOfBounds)
                &&& same_mem
            } else {
                &&& ok
                &&& forall|k: int|
                    0 <= k < ds.len() ==> mpost.data@[pre.index_reg + k] == ds[k]
                &&& forall|k: int|
                    0 <= k < MEMORY_SIZE && !(pre.index_reg <= k < pre.index_reg + ds.len())
                        ==> mpost.data@[k] == mpre.data@[k]
            }
        },
        Opcode::StoreMemory(last) => {
            &&& cpu_unchanged(pre, post)
            &&& same_timer
            &&& if pre.index_reg + last + 1 > MEMORY_SIZE {
                &&& r == Err::<(), ExecError>(ExecError::MemoryOutOfBounds)
                &&& same_mem
            } else {
                &&& ok
                &&& mpost.data@ == stored_mem(
                    mpre.data@,
                    pre.index_reg as int,
                    pre.var_regs@,
                    last as int,
                )
            }
        },
        Opcode::LoadMemory(last) => {
            &&& same_mem
            &&& same_timer
            &&& if pre.index_reg + last + 1 > MEMORY_SIZE {
                &&& r == Err::<(), ExecError>(ExecError::MemoryOutOfBounds)
                &&& cpu_unchanged(pre, post)
            } else {
                &&& ok
                &&& only_regs_changed(pre, post)
                &&& post.var_regs@ == loaded_regs(
                    pre.var_regs@,
                    mpre.data@,
                    pre.index_reg as int,
                    last as int,
                )
            }
        },
        Opcode::Unknown => {
            &&& r == Err::<(), ExecError>(ExecError::UnknownOpcode)
            &&& cpu_unchanged(pre, post)
            &&& same_mem
            &&& same_timer
        },
    }
}

/// What one whole tick does: the instruction word at the program counter is
/// read, the counter advanced past it, and the decoded operation executed.
/// A counter at which no whole word fits in memory is the fatal
/// out-of-bounds error, with the state unchanged.
pub open spec fn tick_rel<B: ShiftBehavior>(
    pre: Cpu<B>,
    mpre: Memory,
    tpre: Timer,
    post: Cpu<B>,
    mpost: Memory,
    tpost: Timer,
    r: Result<(), ExecError>,
) -> bool {
    if pre.pc + 1 >= MEMORY_SIZE {
        &&& r == Err::<(), ExecError>(ExecError::MemoryOutOfBounds)
        &&& cpu_unchanged(pre, post)
        &&& mpost.data@ == mpre.data@
        &&& tpost == tpre
    } else {
        let op = spec_decode(spec_read_instruction(mpre.data@, pre.pc as int));
        let fetched = Cpu { pc: (pre.pc + 2) as usize, ..pre };
        exists|rnd: u8|
            #[trigger] execute_rel(fetched, mpre, tpre, op, rnd, post, mpost, tpost, r)
    }
}

impl<B: ShiftBehavior> Cpu<B> {
    /// Executes one decoded operation.
    fn execute(&mut self, memory: &mut Memory, timer: &mut Timer, op: Opcode)
        -> (r: Result<(), ExecError>)
        requires
            opcode_wf(op),
            old(self).wf(),
            2 <= old(self).pc,
            old(self).pc + 2 <= 0xFFFF,
        ensures
            final(self).wf(),
            exists|rnd: u8|
                #[trigger] execute_rel(
                    *old(self),
                    *old(memory),
                    *old(timer),
                    op,
                    rnd,
                    *final(self),
                    *final(memory),
                    *final(timer),
                    r,
                ),
    {
        let ghost mut rnd: u8 = 0;
        let r: Result<(), ExecError> = match op {
            Opcode::MachineLanguageRoutine(_) => Err(ExecError::MachineLanguageRoutine),
            Opcode::Clear => {
                self.opcode_clear();
                Ok(())
            },
            Opcode::SubroutineReturn => self.opcode_subroutine_return(),
            Opcode::SubroutineCall(address) => {
                self.opcode_subroutine_call(address);
                Ok(())
            },
            Opcode::Jump(address) => {
                self.opcode_jump(address);
                Ok(())
            },
            Opcode::SkipEqVal(reg_idx, value) => {
                if self.var_regs[reg_idx as usize] == value {
                    self.next_opcode();
                }
                Ok(())
            },
            Opcode::SkipNotEqVal(reg_idx, value) => {
                if self.var_regs[reg_idx as usize] != value {
                    self.next_opcode();
                }
                Ok(())
            },
            Opcode::SkipEqReg(reg_idx_x, reg_idx_y) => {
                if self.var_regs[reg_idx_x as usize] == self.var_regs[reg_idx_y as usize] {
                    self.next_opcode();
                }
                Ok(())
            },
            Opcode::SkipNotEqReg(reg_idx_x, reg_idx_y) => {
                if self.var_regs[reg_idx_x as usize] != self.var_regs[reg_idx_y as usize] {
                    self.next_opcode();
                }
                Ok(())
            },
            Opcode::SetValueToRegister(reg_idx, value) => {
                self.opcode_set_value_to_register(reg_idx, value);
                Ok(())
            },
            Opcode::AddValueToRegister(reg_idx, value) => {
                self.opcode_add_value_to_register(reg_idx, value);
                Ok(())
            },
            Opcode::CopyRegister(reg_idx_x, reg_idx_y) => {
                self.var_regs[reg_idx_x as usize] = self.var_regs[reg_idx_y as usize];
                Ok(())
            },
            Opcode::BinaryOR(reg_idx_x, reg_idx_y) => {
                self.var_regs[reg_idx_x as usize] =
                    self.var_regs[reg_idx_x as usize] | self.var_regs[reg_idx_y as usize];
                Ok(())
            },
            Opcode::BinaryAND(reg_idx_x, reg_idx_y) => {
                self.var_regs[reg_idx_x as usize] =
                    self.var_regs[reg_idx_x as usize] & self.var_regs[reg_idx_y as usize];
                Ok(())
            },
            Opcode::BinaryXOR(reg_idx_x, reg_idx_y) => {
                self.var_regs[reg_idx_x as usize] =
                    self.var_regs[reg_idx_x as usize] ^ self.var_regs[reg_idx_y as usize];
                Ok(())
            },
            Opcode::AddRegister(reg_idx_x, reg_idx_y) => {
                self.opcode_add_registers(reg_idx_x, reg_idx_y);
                Ok(())
            },
            Opcode::SubtractRegister(reg_idx_x, reg_idx_y) => {
                self.opcode_subtract_registers(reg_idx_x, reg_idx_x, reg_idx_y);
                Ok(())
            },
            Opcode::NegativeSubtractRegister(reg_idx_x, reg_idx_y) => {
                self.opcode_subtract_registers(reg_idx_x, reg_idx_y, reg_idx_x);
                Ok(())
            },
            Opcode::ShiftRegisterLeft(reg_idx_x, reg_idx_y) => {
                self.opcode_shift_left_register(reg_idx_x, reg_idx_y);
                Ok(())
            },
            Opcode::ShiftRegisterRight(reg_idx_x, reg_idx_y) => {
                self.opcode_shift_right_register(reg_idx_x, reg_idx_y);
                Ok(())
            },
            Opcode::SetIndexRegister(value) => {
                self.opcode_set_index_register(value);
                Ok(())
            },
            Opcode::JumpOffset(address) => {
                self.opcode_jump_with_offset(address);
                Ok(())
            },
            Opcode::Random(reg_idx, mask) => {
                self.opcode_random(reg_idx, mask);
                proof {
                    rnd = choose|b: u8|
                        self.var_regs@ == old(self).var_regs@.update(
                            reg_idx as int,
                            #[trigger] (b & mask),
                        );
                }
                Ok(())
            },
            Opcode::Display(reg_idx_x, reg_idx_y, n_pixels) => {
                self.opcode_display(memory, reg_idx_x, reg_idx_y, n_pixels)
            },
            Opcode::SkipIfKeyPressed(reg_idx) => {
                self.opcode_skip_if_key_pressed(reg_idx);
                Ok(())
            },
            Opcode::SkipIfKeyNotPressed(reg_idx) => {
                self.opcode_skip_if_key_not_pressed(reg_idx);
                Ok(())
            },
            Opcode::CopyDelayTimerValue(reg_idx) => {
                self.var_regs[reg_idx as usize] = timer.get_delay_timer();
                Ok(())
            },
            Opcode::SetDelayTimer(reg_idx) => {
                timer.set_delay_timer(self.var_regs[reg_idx as usize]);
                Ok(())
            },
            Opcode::SetSoundTimer(reg_idx) => {
                timer.set_sound_timer(self.var_regs[reg_idx as usize]);
                Ok(())
            },
            Opcode::AddIndexRegister(reg_idx) => {
                self.opcode_add_index_register(reg_idx);
                Ok(())
            },
            Opcode::GetKey(reg_idx) => {
                self.opcode_get_key(reg_idx);
                Ok(())
            },
            Opcode::FontCharacter(reg_idx) => {
                self.opcode_set_index_register_to_font(memory, reg_idx);
                Ok(())
            },
            Opcode::DecimalConversion(reg_idx) => {
                self.opcode_apply_decimal_conversion(memory, reg_idx)
            },
            Opcode::StoreMemory(last_reg_idx) => {
                self.opcode_store_memory(memory, last_reg_idx)
            },
            Opcode::LoadMemory(last_reg_idx) => {
                self.opcode_load_memory(memory, last_reg_idx)
            },
            Opcode::Unknown => Err(ExecError::UnknownOpcode),
        };
        proof {
            assert(execute_rel(
                *old(self),
                *old(memory),
                *old(timer),
                op,
                rnd,
                *self,
                *memory,
                *timer,
                r,
            ));
        }
        r
    }

    /// One tick of the fetch-decode-execute loop: reads the instruction
    /// word at the program counter, advances the counter past it, decodes
    /// and executes. The three fatal conditions — an unrecognized
    /// instruction word, a return from an empty stack, and a memory access
    /// outside the addressable space — come back as errors; the engine
    /// never panics.
    pub fn tick(&mut self, memory: &mut Memory, timer: &mut Timer) -> (r: Result<(), ExecError>)
        requires
            old(self).wf(),
        ensures
            final(self).wf(),
            tick_rel(
                *old(self),
                *old(memory),
                *old(timer),
                *final(self),
                *final(memory),
                *final(timer),
                r,
            ),
    {
        let instruction = match self.fetch(memory) {
            Ok(instruction) => instruction,
            Err(e) => {
                return Err(e);
            },
        };
        let op = self.decode(instruction);
        proof {
            lemma_decode_wf(instruction);
        }
        self.execute(memory, timer, op)
    }
}

} // verus!
