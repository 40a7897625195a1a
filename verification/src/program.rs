//! Programs: sequences of well-formed instructions.

use crate::instruction::Instruction;
use vstd::prelude::*;

verus! {

/// Whether every instruction of `instructions` is well-formed.
pub open spec fn all_well_formed(instructions: Seq<Instruction>) -> bool {
    forall|i: int| 0 <= i < instructions.len() ==> (#[trigger] instructions[i]).wf()
}

/// An ordered sequence of well-formed instructions. The address of an
/// instruction is its position in the sequence.
#[derive(Debug)]
pub struct Program {
    instructions: Vec<Instruction>,
}

impl View for Program {
    type V = Seq<Instruction>;

    closed spec fn view(&self) -> Seq<Instruction> {
        self.instructions@
    }
}

impl Program {
    #[verifier::type_invariant]
    pub(crate) open spec fn inv(self) -> bool {
        all_well_formed(self@)
    }

    /// Makes a program of `instructions` if all of them are well-formed.
    pub fn new(instructions: Vec<Instruction>) -> (made: Option<Program>)
        ensures
            made is Some <==> all_well_formed(instructions@),
            made matches Some(program) ==> program@ == instructions@,
    {
        let mut i: usize = 0;
        while i < instructions.len()
            invariant
                i <= instructions@.len(),
                all_well_formed(instructions@.take(i as int)),
            decreases instructions@.len() - i,
        {
            if !instructions[i].is_well_formed() {
                return None;
            }
            proof {
                let longer = instructions@.take(i + 1);
                assert forall|j: int| 0 <= j < longer.len() implies (#[trigger] longer[j]).wf() by {
                    if j < i {
                        assert(longer[j] == instructions@.take(i as int)[j]);
                    }
                }
            }
            i += 1;
        }
        assert(instructions@.take(i as int) =~= instructions@);
        Some(Program { instructions })
    }

    /// Makes a program of instructions that are known to be well-formed.
    pub(crate) fn from_well_formed(instructions: Vec<Instruction>) -> (program: Program)
        requires
            all_well_formed(instructions@),
        ensures
            program@ == instructions@,
    {
        Program { instructions }
    }

    /// The number of instructions.
    pub fn len(&self) -> (len: usize)
        ensures
            len == self@.len(),
    {
        self.instructions.len()
    }

    /// Whether the program holds no instruction.
    pub fn is_empty(&self) -> (empty: bool)
        ensures
            empty == (self@.len() == 0),
    {
        self.instructions.len() == 0
    }

    /// The instruction at `address`, if the program has one there.
    pub fn get(&self, address: usize) -> (found: Option<Instruction>)
        ensures
            found == if address < self@.len() {
                Some(self@[address as int])
            } else {
                None
            },
            found matches Some(instruction) ==> instruction.wf(),
    {
        proof {
            use_type_invariant(self);
        }
        if address < self.instructions.len() {
            Some(self.instructions[address])
        } else {
            None
        }
    }

    /// The instructions in order. All of them are well-formed.
    pub fn instructions(&self) -> (all: &Vec<Instruction>)
        ensures
            all@ == self@,
            all_well_formed(self@),
    {
        proof {
            use_type_invariant(self);
        }
        &self.instructions
    }
}

} // verus!
