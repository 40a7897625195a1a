//! Operands, opcodes and instructions.

use vstd::prelude::*;

verus! {

/// One operand of an instruction: a memory cell or an immediate byte.
#[derive(Clone, Copy, Debug, PartialEq, Eq, Structural)]
pub enum Value {
    /// The cell at `addr`.
    Memory { addr: u8 },
    /// The byte `val` itself.
    Literal { val: u8 },
}

impl Value {
    /// The number written in the operand's text: the address of a cell or the
    /// immediate byte.
    pub open spec fn number(self) -> u8 {
        match self {
            Value::Memory { addr } => addr,
            Value::Literal { val } => val,
        }
    }

    /// The byte this operand stands for when read against `memory`.
    pub open spec fn resolved(self, memory: Seq<u8>) -> u8 {
        match self {
            Value::Memory { addr } => memory[addr as int],
            Value::Literal { val } => val,
        }
    }

    /// Reads this operand against `memory`.
    pub fn resolve(&self, memory: &[u8; 256]) -> (byte: u8)
        ensures
            byte == self.resolved(memory@),
    {
        match self {
            Value::Memory { addr } => memory[*addr as usize],
            Value::Literal { val } => *val,
        }
    }
}

/// The mnemonic that names an instruction.
#[derive(Clone, Copy, Debug, PartialEq, Eq, Structural)]
pub enum Opcode {
    Assign,
    Add,
    Sub,
    And,
    Xor,
    Not,
    Out,
    Num,
    Cin,
    Nin,
    Bak,
    Fwd,
    Bye,
    Nop,
}

impl Opcode {
    /// The three letters by which source text names this opcode.
    pub open spec fn mnemonic(self) -> Seq<char> {
        match self {
            Opcode::Assign => seq!['s', 'e', 't'],
            Opcode::Add => seq!['a', 'd', 'd'],
            Opcode::Sub => seq!['s', 'u', 'b'],
            Opcode::And => seq!['a', 'n', 'd'],
            Opcode::Xor => seq!['x', 'o', 'r'],
            Opcode::Not => seq!['n', 'o', 't'],
            Opcode::Out => seq!['o', 'u', 't'],
            Opcode::Num => seq!['n', 'u', 'm'],
            Opcode::Cin => seq!['c', 'i', 'n'],
            Opcode::Nin => seq!['n', 'i', 'n'],
            Opcode::Bak => seq!['b', 'a', 'k'],
            Opcode::Fwd => seq!['f', 'w', 'd'],
            Opcode::Bye => seq!['b', 'y', 'e'],
            Opcode::Nop => seq!['n', 'o', 'p'],
        }
    }

    /// How many source operands the opcode takes: none, one, or two separated
    /// by a comma.
    pub open spec fn sources(self) -> nat {
        match self {
            Opcode::Cin | Opcode::Nin | Opcode::Nop => 0,
            Opcode::Assign | Opcode::Not | Opcode::Out | Opcode::Num | Opcode::Bye => 1,
            Opcode::Add | Opcode::Sub | Opcode::And | Opcode::Xor | Opcode::Bak | Opcode::Fwd => 2,
        }
    }

    /// Whether the opcode writes to a target cell, named after an arrow.
    pub open spec fn has_target(self) -> bool {
        match self {
            Opcode::Assign
            | Opcode::Add
            | Opcode::Sub
            | Opcode::And
            | Opcode::Xor
            | Opcode::Not
            | Opcode::Cin
            | Opcode::Nin => true,
            Opcode::Out | Opcode::Num | Opcode::Bak | Opcode::Fwd | Opcode::Bye | Opcode::Nop => false,
        }
    }

    /// The opcode that `name` spells, if any. Names are case-sensitive.
    pub open spec fn named(name: Seq<char>) -> Option<Opcode> {
        if name == Opcode::Assign.mnemonic() {
            Some(Opcode::Assign)
        } else if name == Opcode::Add.mnemonic() {
            Some(Opcode::Add)
        } else if name == Opcode::Sub.mnemonic() {
            Some(Opcode::Sub)
        } else if name == Opcode::And.mnemonic() {
            Some(Opcode::And)
        } else if name == Opcode::Xor.mnemonic() {
            Some(Opcode::Xor)
        } else if name == Opcode::Not.mnemonic() {
            Some(Opcode::Not)
        } else if name == Opcode::Out.mnemonic() {
            Some(Opcode::Out)
        } else if name == Opcode::Num.mnemonic() {
            Some(Opcode::Num)
        } else if name == Opcode::Cin.mnemonic() {
            Some(Opcode::Cin)
        } else if name == Opcode::Nin.mnemonic() {
            Some(Opcode::Nin)
        } else if name == Opcode::Bak.mnemonic() {
            Some(Opcode::Bak)
        } else if name == Opcode::Fwd.mnemonic() {
            Some(Opcode::Fwd)
        } else if name == Opcode::Bye.mnemonic() {
            Some(Opcode::Bye)
        } else if name == Opcode::Nop.mnemonic() {
            Some(Opcode::Nop)
        } else {
            None
        }
    }

    /// The number of source operands, as [`Opcode::sources`] defines it.
    pub fn source_count(&self) -> (count: u8)
        ensures
            count == self.sources(),
    {
        match self {
            Opcode::Cin | Opcode::Nin | Opcode::Nop => 0,
            Opcode::Assign | Opcode::Not | Opcode::Out | Opcode::Num | Opcode::Bye => 1,
            Opcode::Add | Opcode::Sub | Opcode::And | Opcode::Xor | Opcode::Bak | Opcode::Fwd => 2,
        }
    }

    /// Whether the opcode writes to a target cell.
    pub fn writes(&self) -> (yes: bool)
        ensures
            yes == self.has_target(),
    {
        match self {
            Opcode::Assign
            | Opcode::Add
            | Opcode::Sub
            | Opcode::And
            | Opcode::Xor
            | Opcode::Not
            | Opcode::Cin
            | Opcode::Nin => true,
            Opcode::Out | Opcode::Num | Opcode::Bak | Opcode::Fwd | Opcode::Bye | Opcode::Nop => false,
        }
    }

    /// The mnemonic as text.
    pub fn name(&self) -> (text: &'static str)
        ensures
            text@ == self.mnemonic(),
    {
        proof {
            reveal_strlit("set");
            reveal_strlit("add");
            reveal_strlit("sub");
            reveal_strlit("and");
            reveal_strlit("xor");
            reveal_strlit("not");
            reveal_strlit("out");
            reveal_strlit("num");
            reveal_strlit("cin");
            reveal_strlit("nin");
            reveal_strlit("bak");
            reveal_strlit("fwd");
            reveal_strlit("bye");
            reveal_strlit("nop");
        }
        let text = match self {
            Opcode::Assign => "set",
            Opcode::Add => "add",
            Opcode::Sub => "sub",
            Opcode::And => "and",
            Opcode::Xor => "xor",
            Opcode::Not => "not",
            Opcode::Out => "out",
            Opcode::Num => "num",
            Opcode::Cin => "cin",
            Opcode::Nin => "nin",
            Opcode::Bak => "bak",
            Opcode::Fwd => "fwd",
            Opcode::Bye => "bye",
            Opcode::Nop => "nop",
        };
        assert(text@ =~= self.mnemonic());
        text
    }

    /// Looks up the opcode that the characters `text[from..to]` spell.
    pub(crate) fn lookup(text: &[char], from: usize, to: usize) -> (found: Option<Opcode>)
        requires
            from <= to <= text@.len(),
        ensures
            found == Opcode::named(text@.subrange(from as int, to as int)),
    {
        let ghost name = text@.subrange(from as int, to as int);
        if to - from != 3 {
            proof {
                lemma_named_is_mnemonic(name);
            }
            return None;
        }
        let a = text[from];
        let b = text[from + 1];
        let c = text[from + 2];
        assert(name =~= seq![a, b, c]);
        let found = if a == 's' && b == 'e' && c == 't' {
            Some(Opcode::Assign)
        } else if a == 'a' && b == 'd' && c == 'd' {
            Some(Opcode::Add)
        } else if a == 's' && b == 'u' && c == 'b' {
            Some(Opcode::Sub)
        } else if a == 'a' && b == 'n' && c == 'd' {
            Some(Opcode::And)
        } else if a == 'x' && b == 'o' && c == 'r' {
            Some(Opcode::Xor)
        } else if a == 'n' && b == 'o' && c == 't' {
            Some(Opcode::Not)
        } else if a == 'o' && b == 'u' && c == 't' {
            Some(Opcode::Out)
        } else if a == 'n' && b == 'u' && c == 'm' {
            Some(Opcode::Num)
        } else if a == 'c' && b == 'i' && c == 'n' {
            Some(Opcode::Cin)
        } else if a == 'n' && b == 'i' && c == 'n' {
            Some(Opcode::Nin)
        } else if a == 'b' && b == 'a' && c == 'k' {
            Some(Opcode::Bak)
        } else if a == 'f' && b == 'w' && c == 'd' {
            Some(Opcode::Fwd)
        } else if a == 'b' && b == 'y' && c == 'e' {
            Some(Opcode::Bye)
        } else if a == 'n' && b == 'o' && c == 'p' {
            Some(Opcode::Nop)
        } else {
            None
        };
        found
    }
}

/// One instruction of a program.
///
/// An instruction that writes names its target as a [`Value`]; the target of a
/// well-formed instruction is a memory cell ([`Instruction::wf`]).
#[derive(Clone, Copy, Debug, PartialEq, Eq, Structural)]
pub enum Instruction {
    /// `set src -> tgt`: stores `src`.
    Assign { src: Value, tgt: Value },
    /// `and left, right -> tgt`: stores the bitwise conjunction.
    And { left: Value, right: Value, tgt: Value },
    /// `xor left, right -> tgt`: stores the bitwise exclusive disjunction.
    Xor { left: Value, right: Value, tgt: Value },
    /// `not src -> tgt`: stores 1 if `src` is 0, and 0 otherwise.
    Not { src: Value, tgt: Value },
    /// `add left, right -> tgt`: stores the sum modulo 256.
    Add { left: Value, right: Value, tgt: Value },
    /// `sub left, right -> tgt`: stores the difference modulo 256.
    Sub { left: Value, right: Value, tgt: Value },
    /// `out src`: writes `src` as a character.
    Out { src: Value },
    /// `num src`: writes `src` as a decimal number.
    Num { src: Value },
    /// `cin -> tgt`: stores one byte of input.
    Cin { tgt: Value },
    /// `nin -> tgt`: stores a number read from one line of input.
    Nin { tgt: Value },
    /// `bak count, check`: moves the instruction pointer back by `count` if
    /// `check` is 0.
    Bak { count: Value, check: Value },
    /// `fwd count, check`: moves the instruction pointer forward by `count` if
    /// `check` is 0.
    Fwd { count: Value, check: Value },
    /// `bye code`: halts with the exit code `code`.
    Bye { code: Value },
    /// `nop`: does nothing.
    Nop,
}

impl Instruction {
    /// The opcode of the instruction.
    pub open spec fn opcode(self) -> Opcode {
        match self {
            Instruction::Assign { .. } => Opcode::Assign,
            Instruction::And { .. } => Opcode::And,
            Instruction::Xor { .. } => Opcode::Xor,
            Instruction::Not { .. } => Opcode::Not,
            Instruction::Add { .. } => Opcode::Add,
            Instruction::Sub { .. } => Opcode::Sub,
            Instruction::Out { .. } => Opcode::Out,
            Instruction::Num { .. } => Opcode::Num,
            Instruction::Cin { .. } => Opcode::Cin,
            Instruction::Nin { .. } => Opcode::Nin,
            Instruction::Bak { .. } => Opcode::Bak,
            Instruction::Fwd { .. } => Opcode::Fwd,
            Instruction::Bye { .. } => Opcode::Bye,
            Instruction::Nop => Opcode::Nop,
        }
    }

    /// The first source operand; the literal 0 where the opcode takes none.
    pub open spec fn first(self) -> Value {
        match self {
            Instruction::Assign { src, .. } => src,
            Instruction::And { left, .. } => left,
            Instruction::Xor { left, .. } => left,
            Instruction::Not { src, .. } => src,
            Instruction::Add { left, .. } => left,
            Instruction::Sub { left, .. } => left,
            Instruction::Out { src } => src,
            Instruction::Num { src } => src,
            Instruction::Bak { count, .. } => count,
            Instruction::Fwd { count, .. } => count,
            Instruction::Bye { code } => code,
            Instruction::Cin { .. } | Instruction::Nin { .. } | Instruction::Nop => Value::Literal {
                val: 0,
            },
        }
    }

    /// The second source operand; the literal 0 where the opcode takes fewer
    /// than two.
    pub open spec fn second(self) -> Value {
        match self {
            Instruction::And { right, .. } => right,
            Instruction::Xor { right, .. } => right,
            Instruction::Add { right, .. } => right,
            Instruction::Sub { right, .. } => right,
            Instruction::Bak { check, .. } => check,
            Instruction::Fwd { check, .. } => check,
            _ => Value::Literal { val: 0 },
        }
    }

    /// The target operand; the literal 0 where the opcode writes nothing.
    pub open spec fn target(self) -> Value {
        match self {
            Instruction::Assign { tgt, .. } => tgt,
            Instruction::And { tgt, .. } => tgt,
            Instruction::Xor { tgt, .. } => tgt,
            Instruction::Not { tgt, .. } => tgt,
            Instruction::Add { tgt, .. } => tgt,
            Instruction::Sub { tgt, .. } => tgt,
            Instruction::Cin { tgt } => tgt,
            Instruction::Nin { tgt } => tgt,
            _ => Value::Literal { val: 0 },
        }
    }

    /// The instruction with opcode `op` and the given operands. Operands that
    /// `op` does not take are ignored.
    pub open spec fn assemble(op: Opcode, first: Value, second: Value, target: Value) -> Instruction {
        match op {
            Opcode::Assign => Instruction::Assign { src: first, tgt: target },
            Opcode::And => Instruction::And { left: first, right: second, tgt: target },
            Opcode::Xor => Instruction::Xor { left: first, right: second, tgt: target },
            Opcode::Not => Instruction::Not { src: first, tgt: target },
            Opcode::Add => Instruction::Add { left: first, right: second, tgt: target },
            Opcode::Sub => Instruction::Sub { left: first, right: second, tgt: target },
            Opcode::Out => Instruction::Out { src: first },
            Opcode::Num => Instruction::Num { src: first },
            Opcode::Cin => Instruction::Cin { tgt: target },
            Opcode::Nin => Instruction::Nin { tgt: target },
            Opcode::Bak => Instruction::Bak { count: first, check: second },
            Opcode::Fwd => Instruction::Fwd { count: first, check: second },
            Opcode::Bye => Instruction::Bye { code: first },
            Opcode::Nop => Instruction::Nop,
        }
    }

    /// Well-formedness: an instruction that writes names a memory cell as its
    /// target.
    pub open spec fn wf(self) -> bool {
        self.opcode().has_target() ==> self.target() is Memory
    }

    /// The opcode of the instruction.
    pub fn op(&self) -> (op: Opcode)
        ensures
            op == self.opcode(),
    {
        match self {
            Instruction::Assign { .. } => Opcode::Assign,
            Instruction::And { .. } => Opcode::And,
            Instruction::Xor { .. } => Opcode::Xor,
            Instruction::Not { .. } => Opcode::Not,
            Instruction::Add { .. } => Opcode::Add,
            Instruction::Sub { .. } => Opcode::Sub,
            Instruction::Out { .. } => Opcode::Out,
            Instruction::Num { .. } => Opcode::Num,
            Instruction::Cin { .. } => Opcode::Cin,
            Instruction::Nin { .. } => Opcode::Nin,
            Instruction::Bak { .. } => Opcode::Bak,
            Instruction::Fwd { .. } => Opcode::Fwd,
            Instruction::Bye { .. } => Opcode::Bye,
            Instruction::Nop => Opcode::Nop,
        }
    }

    /// The source operands and the target, in the order in which source text
    /// writes them.
    pub fn operands(&self) -> (parts: (Value, Value, Value))
        ensures
            parts.0 == self.first(),
            parts.1 == self.second(),
            parts.2 == self.target(),
    {
        let none = Value::Literal { val: 0 };
        match *self {
            Instruction::Assign { src, tgt } => (src, none, tgt),
            Instruction::And { left, right, tgt } => (left, right, tgt),
            Instruction::Xor { left, right, tgt } => (left, right, tgt),
            Instruction::Not { src, tgt } => (src, none, tgt),
            Instruction::Add { left, right, tgt } => (left, right, tgt),
            Instruction::Sub { left, right, tgt } => (left, right, tgt),
            Instruction::Out { src } => (src, none, none),
            Instruction::Num { src } => (src, none, none),
            Instruction::Cin { tgt } => (none, none, tgt),
            Instruction::Nin { tgt } => (none, none, tgt),
            Instruction::Bak { count, check } => (count, check, none),
            Instruction::Fwd { count, check } => (count, check, none),
            Instruction::Bye { code } => (code, none, none),
            Instruction::Nop => (none, none, none),
        }
    }

    /// Builds the instruction with opcode `op` from its operands.
    pub fn build(op: Opcode, first: Value, second: Value, target: Value) -> (made: Instruction)
        ensures
            made == Instruction::assemble(op, first, second, target),
    {
        match op {
            Opcode::Assign => Instruction::Assign { src: first, tgt: target },
            Opcode::And => Instruction::And { left: first, right: second, tgt: target },
            Opcode::Xor => Instruction::Xor { left: first, right: second, tgt: target },
            Opcode::Not => Instruction::Not { src: first, tgt: target },
            Opcode::Add => Instruction::Add { left: first, right: second, tgt: target },
            Opcode::Sub => Instruction::Sub { left: first, right: second, tgt: target },
            Opcode::Out => Instruction::Out { src: first },
            Opcode::Num => Instruction::Num { src: first },
            Opcode::Cin => Instruction::Cin { tgt: target },
            Opcode::Nin => Instruction::Nin { tgt: target },
            Opcode::Bak => Instruction::Bak { count: first, check: second },
            Opcode::Fwd => Instruction::Fwd { count: first, check: second },
            Opcode::Bye => Instruction::Bye { code: first },
            Opcode::Nop => Instruction::Nop,
        }
    }

    /// Tests well-formedness.
    pub fn is_well_formed(&self) -> (yes: bool)
        ensures
            yes == self.wf(),
    {
        let (_, _, target) = self.operands();
        !self.op().writes() || matches!(target, Value::Memory { .. })
    }
}

/// A name spells an opcode exactly if it is that opcode's mnemonic, and every
/// mnemonic has three letters.
pub proof fn lemma_named_is_mnemonic(name: Seq<char>)
    ensures
        forall|op: Opcode| Opcode::named(name) == Some(op) <==> name == #[trigger] op.mnemonic(),
        Opcode::named(name) is Some ==> name.len() == 3,
{
    assert forall|op: Opcode| Opcode::named(name) == Some(op) <==> name == #[trigger] op.mnemonic() by {
        if name == op.mnemonic() {
            assert(name[0] == op.mnemonic()[0]);
            assert(name[1] == op.mnemonic()[1]);
            assert(name[2] == op.mnemonic()[2]);
        }
    }
}

/// Taking an instruction apart and assembling the parts gives the instruction
/// back.
pub proof fn lemma_assemble_parts(i: Instruction)
    ensures
        Instruction::assemble(i.opcode(), i.first(), i.second(), i.target()) == i,
{
}

/// An assembled instruction has the opcode it was assembled with, and is
/// well-formed exactly if the opcode writes nothing or the target is a cell.
pub proof fn lemma_assemble_opcode(op: Opcode, first: Value, second: Value, target: Value)
    ensures
        Instruction::assemble(op, first, second, target).opcode() == op,
        Instruction::assemble(op, first, second, target).wf() <==> (op.has_target()
            ==> target is Memory),
{
}

} // verus!
