//! The execution engine: 256 byte cells and a program.
//!
//! Cell 0 is the instruction pointer. It is an ordinary cell: an instruction
//! that writes to it redirects the program. After every instruction but a
//! taken jump the pointer moves on by one, also where the instruction itself
//! wrote to cell 0. All arithmetic wraps modulo 256.
//!
//! The machine does no input or output of its own. [`Machine::step`] runs one
//! instruction and reports what the caller is to write, or stops before an
//! input instruction and reports what the caller is to read; the caller hands
//! the byte it read to [`Machine::feed`].

use crate::instruction::{Instruction, Value};
use crate::program::{all_well_formed, Program};
use vstd::pervasive::unreached;
use vstd::prelude::*;

verus! {

/// The number of memory cells.
pub const CELLS: usize = 256;

/// The byte that the integer `n` wraps to: `n` modulo 256.
pub open spec fn wrap(n: int) -> u8 {
    (n % 256) as u8
}

/// What one step of the machine did, or what it waits for.
#[derive(Clone, Copy, Debug, PartialEq, Eq, Structural)]
pub enum Step {
    /// An instruction without input or output ran.
    Ran,
    /// `out` ran. The caller writes the character.
    WriteChar(char),
    /// `num` ran. The caller writes the number in decimal.
    WriteNumber(u8),
    /// `cin` is next. The caller reads one byte and feeds it.
    ReadChar,
    /// `nin` is next. The caller reads one line, and feeds the number that
    /// the line denotes.
    ReadNumber,
    /// `bye` is next. The program has ended with this exit code.
    Halted(u8),
    /// The instruction pointer, whose value this is, points outside the
    /// program.
    OutOfProgram(u8),
}

/// The state of a machine: its program and its memory.
pub struct State {
    pub program: Seq<Instruction>,
    pub memory: Seq<u8>,
}

impl State {
    /// A state is well-formed if it has 256 cells and the instructions of its
    /// program are well-formed.
    pub open spec fn wf(self) -> bool {
        self.memory.len() == CELLS && all_well_formed(self.program)
    }

    /// The instruction pointer: the value of cell 0.
    pub open spec fn ip(self) -> u8 {
        self.memory[0]
    }

    /// The instruction that the pointer points to, if it points into the
    /// program.
    pub open spec fn current(self) -> Option<Instruction> {
        if self.ip() < self.program.len() {
            Some(self.program[self.ip() as int])
        } else {
            None
        }
    }

    /// The state with `memory` in place of its memory.
    pub open spec fn with_memory(self, memory: Seq<u8>) -> State {
        State { program: self.program, memory }
    }

    /// Whether the machine waits for input: the current instruction is `cin`
    /// or `nin`.
    pub open spec fn awaits_input(self) -> bool {
        self.current() matches Some(i) && (i is Cin || i is Nin)
    }

    /// The state after one step.
    ///
    /// A state without a current instruction, and one whose current
    /// instruction is `bye`, `cin` or `nin`, stays as it is. Any other
    /// instruction stores what it computes, if it computes anything; then a
    /// taken jump sets the pointer, and every other instruction moves it on
    /// by one.
    pub open spec fn step(self) -> State {
        match self.current() {
            None => self,
            Some(i) => if i is Bye || i is Cin || i is Nin {
                self
            } else {
                let stored = match computed(i, self.memory) {
                    Some(byte) => self.memory.update(i.target()->addr as int, byte),
                    None => self.memory,
                };
                self.with_memory(
                    match jump(i, self.memory) {
                        Some(ip) => stored.update(0, ip),
                        None => advanced(stored),
                    },
                )
            },
        }
    }

    /// What a step from this state reports.
    pub open spec fn event(self) -> Step {
        match self.current() {
            None => Step::OutOfProgram(self.ip()),
            Some(i) => match i {
                Instruction::Out { src } => Step::WriteChar(src.resolved(self.memory) as char),
                Instruction::Num { src } => Step::WriteNumber(src.resolved(self.memory)),
                Instruction::Cin { .. } => Step::ReadChar,
                Instruction::Nin { .. } => Step::ReadNumber,
                Instruction::Bye { code } => Step::Halted(code.resolved(self.memory)),
                _ => Step::Ran,
            },
        }
    }

    /// The state after the input instruction at the pointer has stored
    /// `byte`: the byte is in the target cell, and then the pointer has moved
    /// on by one. A state that does not wait for input stays as it is.
    pub open spec fn fed(self, byte: u8) -> State {
        if self.awaits_input() {
            self.with_memory(
                advanced(self.memory.update(self.current()->0.target()->addr as int, byte)),
            )
        } else {
            self
        }
    }
}

/// The byte that `i` computes from `memory` and stores in its target, if it
/// is an instruction that computes one.
pub open spec fn computed(i: Instruction, memory: Seq<u8>) -> Option<u8> {
    match i {
        Instruction::Assign { src, .. } => Some(src.resolved(memory)),
        Instruction::And { left, right, .. } => Some(left.resolved(memory) & right.resolved(memory)),
        Instruction::Xor { left, right, .. } => Some(left.resolved(memory) ^ right.resolved(memory)),
        Instruction::Not { src, .. } => Some(
            if src.resolved(memory) == 0 {
                1u8
            } else {
                0u8
            },
        ),
        Instruction::Add { left, right, .. } => Some(
            wrap(left.resolved(memory) + right.resolved(memory)),
        ),
        Instruction::Sub { left, right, .. } => Some(
            wrap(left.resolved(memory) - right.resolved(memory)),
        ),
        _ => None,
    }
}

/// Where `i` sends the instruction pointer, if it is a jump and is taken: a
/// jump is taken if its check is 0, and moves the pointer by its count.
pub open spec fn jump(i: Instruction, memory: Seq<u8>) -> Option<u8> {
    match i {
        Instruction::Bak { count, check } => if check.resolved(memory) == 0 {
            Some(wrap(memory[0] - count.resolved(memory)))
        } else {
            None
        },
        Instruction::Fwd { count, check } => if check.resolved(memory) == 0 {
            Some(wrap(memory[0] + count.resolved(memory)))
        } else {
            None
        },
        _ => None,
    }
}

/// `memory` with the instruction pointer moved on by one.
pub open spec fn advanced(memory: Seq<u8>) -> Seq<u8> {
    memory.update(0, wrap(memory[0] + 1))
}

/// The address of a target cell.
fn cell(target: Value) -> (addr: u8)
    requires
        target is Memory,
    ensures
        addr == target->addr,
{
    match target {
        Value::Memory { addr } => addr,
        Value::Literal { .. } => unreached(),
    }
}

/// A machine: a program, and 256 cells that start at zero.
#[derive(Debug)]
pub struct Machine {
    program: Program,
    memory: [u8; 256],
}

impl View for Machine {
    type V = State;

    closed spec fn view(&self) -> State {
        State { program: self.program@, memory: self.memory@ }
    }
}

impl Machine {
    /// A machine that is about to run `program` from its first instruction,
    /// with every cell at zero.
    pub fn new(program: Program) -> (machine: Machine)
        ensures
            machine@.program == program@,
            machine@.memory == Seq::new(CELLS as nat, |i: int| 0u8),
            machine@.wf(),
    {
        proof {
            use_type_invariant(&program);
        }
        let machine = Machine { program, memory: [0u8; 256] };
        assert(machine@.memory =~= Seq::new(CELLS as nat, |i: int| 0u8));
        machine
    }

    /// The program.
    pub fn program(&self) -> (program: &Program)
        ensures
            program@ == self@.program,
    {
        &self.program
    }

    /// The memory. It has 256 cells.
    pub fn memory(&self) -> (memory: &[u8; 256])
        ensures
            memory@ == self@.memory,
    {
        &self.memory
    }

    /// The instruction pointer.
    pub fn pointer(&self) -> (ip: u8)
        ensures
            ip == self@.ip(),
    {
        self.memory[0]
    }

    /// Stores `byte` in the target cell and moves the pointer on by one.
    fn store_and_advance(&mut self, target: Value, byte: u8)
        requires
            target is Memory,
        ensures
            final(self)@ == old(self)@.with_memory(
                advanced(old(self)@.memory.update(target->addr as int, byte)),
            ),
    {
        self.memory[cell(target) as usize] = byte;
        self.advance();
    }

    /// Moves the pointer on by one.
    fn advance(&mut self)
        ensures
            final(self)@ == old(self)@.with_memory(advanced(old(self)@.memory)),
    {
        self.memory[0] = self.memory[0].wrapping_add(1);
    }

    /// Runs the instruction at the pointer, unless it is `bye`, `cin` or
    /// `nin` or the pointer lies outside the program, and reports what
    /// happened.
    ///
    /// The new state is [`State::step`] of the old one, and the report is
    /// [`State::event`] of the old one. On [`Step::ReadChar`] and
    /// [`Step::ReadNumber`] the caller goes on with [`Machine::feed`]. On
    /// [`Step::Halted`] and [`Step::OutOfProgram`] the machine stays as it
    /// is, and a further step reports the same.
    pub fn step(&mut self) -> (step: Step)
        ensures
            final(self)@ == old(self)@.step(),
            step == old(self)@.event(),
            final(self)@.wf(),
    {
        proof {
            use_type_invariant(&self.program);
        }
        let ip = self.memory[0];
        let instruction = match self.program.get(ip as usize) {
            None => {
                return Step::OutOfProgram(ip);
            },
            Some(instruction) => instruction,
        };
        match instruction {
            Instruction::Assign { src, tgt } => {
                let byte = src.resolve(&self.memory);
                self.store_and_advance(tgt, byte);
                Step::Ran
            },
            Instruction::And { left, right, tgt } => {
                let byte = left.resolve(&self.memory) & right.resolve(&self.memory);
                self.store_and_advance(tgt, byte);
                Step::Ran
            },
            Instruction::Xor { left, right, tgt } => {
                let byte = left.resolve(&self.memory) ^ right.resolve(&self.memory);
                self.store_and_advance(tgt, byte);
                Step::Ran
            },
            Instruction::Not { src, tgt } => {
                let byte: u8 = if src.resolve(&self.memory) == 0 {
                    1
                } else {
                    0
                };
                self.store_and_advance(tgt, byte);
                Step::Ran
            },
            Instruction::Add { left, right, tgt } => {
                let byte = left.resolve(&self.memory).wrapping_add(right.resolve(&self.memory));
                self.store_and_advance(tgt, byte);
                Step::Ran
            },
            Instruction::Sub { left, right, tgt } => {
                let byte = left.resolve(&self.memory).wrapping_sub(right.resolve(&self.memory));
                self.store_and_advance(tgt, byte);
                Step::Ran
            },
            Instruction::Out { src } => {
                let byte = src.resolve(&self.memory);
                self.advance();
                Step::WriteChar(byte as char)
            },
            Instruction::Num { src } => {
                let byte = src.resolve(&self.memory);
                self.advance();
                Step::WriteNumber(byte)
            },
            Instruction::Cin { .. } => Step::ReadChar,
            Instruction::Nin { .. } => Step::ReadNumber,
            Instruction::Bak { count, check } => {
                if check.resolve(&self.memory) == 0 {
                    self.memory[0] = ip.wrapping_sub(count.resolve(&self.memory));
                } else {
                    self.advance();
                }
                Step::Ran
            },
            Instruction::Fwd { count, check } => {
                if check.resolve(&self.memory) == 0 {
                    self.memory[0] = ip.wrapping_add(count.resolve(&self.memory));
                } else {
                    self.advance();
                }
                Step::Ran
            },
            Instruction::Bye { code } => Step::Halted(code.resolve(&self.memory)),
            Instruction::Nop => {
                self.advance();
                Step::Ran
            },
        }
    }

    /// Hands the machine the byte that its input instruction waits for.
    ///
    /// If the instruction at the pointer is `cin` or `nin`, the byte is
    /// stored in its target, the pointer moves on by one, and the result is
    /// `true`. Otherwise nothing changes and the result is `false`.
    pub fn feed(&mut self, byte: u8) -> (accepted: bool)
        ensures
            accepted == old(self)@.awaits_input(),
            final(self)@ == old(self)@.fed(byte),
            final(self)@.wf(),
    {
        proof {
            use_type_invariant(&self.program);
        }
        let ip = self.memory[0];
        match self.program.get(ip as usize) {
            Some(Instruction::Cin { tgt }) => {
                self.store_and_advance(tgt, byte);
                true
            },
            Some(Instruction::Nin { tgt }) => {
                self.store_and_advance(tgt, byte);
                true
            },
            _ => false,
        }
    }
}

/// A step and a fed byte keep a state well-formed, and never change the
/// program or the number of cells.
pub proof fn lemma_step_keeps_wf(s: State, byte: u8)
    requires
        s.wf(),
    ensures
        s.step().wf(),
        s.step().program == s.program,
        s.fed(byte).wf(),
        s.fed(byte).program == s.program,
{
}

/// `add` computes the sum of its operands modulo 256 and `sub` their
/// difference modulo 256, whatever the operands are. The result is what the
/// target cell holds after the step, unless the target is cell 0, which the
/// step then moves on by one.
pub proof fn lemma_add_sub_wrap(s: State, left: Value, right: Value, tgt: Value, subtract: bool)
    requires
        s.wf(),
        s.current() == Some(
            if subtract {
                Instruction::Sub { left, right, tgt }
            } else {
                Instruction::Add { left, right, tgt }
            },
        ),
    ensures
        ({
            let a = left.resolved(s.memory) as int;
            let b = right.resolved(s.memory) as int;
            let result = if subtract {
                (a - b) % 256
            } else {
                (a + b) % 256
            };
            &&& 0 <= result < 256
            &&& computed(s.current()->0, s.memory) == Some(result as u8)
            &&& s.step().memory == advanced(s.memory.update(tgt->addr as int, result as u8))
            &&& tgt->addr != 0 ==> s.step().memory[tgt->addr as int] == result
            &&& tgt->addr == 0 ==> s.step().memory[0] == (result + 1) % 256
        }),
{
}

/// `not` computes 1 from 0 and 0 from every other byte. The result is what
/// the target cell holds after the step, unless the target is cell 0.
pub proof fn lemma_not_is_logical(s: State, src: Value, tgt: Value)
    requires
        s.wf(),
        s.current() == Some(Instruction::Not { src, tgt }),
    ensures
        ({
            let result: u8 = if src.resolved(s.memory) == 0 {
                1
            } else {
                0
            };
            &&& computed(s.current()->0, s.memory) == Some(result)
            &&& s.step().memory == advanced(s.memory.update(tgt->addr as int, result))
            &&& tgt->addr != 0 ==> s.step().memory[tgt->addr as int] == result
        }),
{
}

/// `bak` and `fwd` jump exactly if their check is 0. A jump that is taken
/// moves the pointer by the count, back or forward, modulo 256, and the
/// pointer does not move on after it. A jump that is not taken moves the
/// pointer on by one. No other cell changes either way.
pub proof fn lemma_jump_iff_zero(s: State, count: Value, check: Value, forward: bool)
    requires
        s.wf(),
        s.current() == Some(
            if forward {
                Instruction::Fwd { count, check }
            } else {
                Instruction::Bak { count, check }
            },
        ),
    ensures
        ({
            let distance = count.resolved(s.memory) as int;
            let taken = check.resolved(s.memory) == 0;
            let ip = if taken {
                if forward {
                    (s.ip() + distance) % 256
                } else {
                    (s.ip() - distance) % 256
                }
            } else {
                (s.ip() + 1) % 256
            };
            &&& 0 <= ip < 256
            &&& s.step().ip() == ip
            &&& s.step().memory == s.memory.update(0, ip as u8)
            &&& forall|k: int| 1 <= k < 256 ==> s.step().memory[k] == s.memory[k]
            &&& s.step().program == s.program
            &&& s.event() == Step::Ran
        }),
{
}

/// A state that has halted or points outside its program does not move: a
/// step from it changes nothing.
pub proof fn lemma_halted_stays(s: State)
    requires
        s.event() is Halted || s.event() is OutOfProgram,
    ensures
        s.step() == s,
{
}

} // verus!
