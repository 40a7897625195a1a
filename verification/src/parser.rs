//! The grammar of one line of source text.
//!
//! A line is an opcode, spaces, and the operands that the opcode takes:
//!
//! ```text
//! line      := opcode spaces? operands spaces?
//! operand   := 'm'? digits
//! target    := 'm' digits
//! comma     := spaces? ',' spaces?
//! arrow     := spaces? '->' spaces?
//! ```
//!
//! Source operands are separated by a comma; a target follows an arrow. Only
//! the space character separates; a tab is an unexpected character.

use crate::decimal::{chars_to_u8, parsed_u8};
use crate::instruction::{lemma_assemble_opcode, Instruction, Opcode, Value};
use crate::text::{run_end, skip_run, to_chars, CharClass};
use vstd::prelude::*;
use vstd::slice::slice_subrange;
use vstd::string::*;

verus! {

/// Why a line is no instruction, with the part of the line that shows it.
#[derive(Debug, PartialEq, Eq)]
pub enum ParseError {
    /// The line does not start with a letter. `near` is the whole line.
    InvalidName { near: String },
    /// The letters at the start of the line name no opcode.
    UnknownInstruction { name: String },
    /// The operands do not have the shape that `opcode` takes. `near` is the
    /// rest of the line from the point where the shape breaks.
    Malformed { opcode: Opcode, near: String },
    /// Something follows the operands. `rest` is what follows.
    UnexpectedCharacters { rest: String },
    /// An operand's digits do not denote a byte.
    InvalidInteger,
}

/// A [`ParseError`] with its text as sequences of characters.
pub enum ParseErrorView {
    InvalidName { near: Seq<char> },
    UnknownInstruction { name: Seq<char> },
    Malformed { opcode: Opcode, near: Seq<char> },
    UnexpectedCharacters { rest: Seq<char> },
    InvalidInteger,
}

impl View for ParseError {
    type V = ParseErrorView;

    open spec fn view(&self) -> ParseErrorView {
        match self {
            ParseError::InvalidName { near } => ParseErrorView::InvalidName { near: near@ },
            ParseError::UnknownInstruction { name } => ParseErrorView::UnknownInstruction {
                name: name@,
            },
            ParseError::Malformed { opcode, near } => ParseErrorView::Malformed {
                opcode: *opcode,
                near: near@,
            },
            ParseError::UnexpectedCharacters { rest } => ParseErrorView::UnexpectedCharacters {
                rest: rest@,
            },
            ParseError::InvalidInteger => ParseErrorView::InvalidInteger,
        }
    }
}

impl ParseErrorView {
    /// The message that reports the error.
    pub open spec fn message(self) -> Seq<char> {
        match self {
            ParseErrorView::InvalidName { near } => "Not a valid instruction name: `"@ + near
                + "`"@,
            ParseErrorView::UnknownInstruction { name } => "Unknown instruction `"@ + name + "`"@,
            ParseErrorView::Malformed { opcode, near } => "Error while parsing `"@
                + opcode.mnemonic() + "` instruction near `"@ + near + "`"@,
            ParseErrorView::UnexpectedCharacters { rest } => "Unexpected characters: `"@ + rest
                + "`"@,
            ParseErrorView::InvalidInteger => "Error parsing integer"@,
        }
    }
}

impl ParseError {
    /// The message that reports the error.
    pub fn message(&self) -> (text: String)
        ensures
            text@ == self@.message(),
    {
        match self {
            ParseError::InvalidName { near } => {
                let mut text = String::from_str("Not a valid instruction name: `");
                text.append(near.as_str());
                text.append("`");
                text
            },
            ParseError::UnknownInstruction { name } => {
                let mut text = String::from_str("Unknown instruction `");
                text.append(name.as_str());
                text.append("`");
                text
            },
            ParseError::Malformed { opcode, near } => {
                let mut text = String::from_str("Error while parsing `");
                text.append(opcode.name());
                text.append("` instruction near `");
                text.append(near.as_str());
                text.append("`");
                text
            },
            ParseError::UnexpectedCharacters { rest } => {
                let mut text = String::from_str("Unexpected characters: `");
                text.append(rest.as_str());
                text.append("`");
                text
            },
            ParseError::InvalidInteger => String::from_str("Error parsing integer"),
        }
    }
}

/// The operand that the digits `s[start..end]` denote, a cell if `memory` and
/// a literal otherwise; `None` if the digits denote no byte.
pub open spec fn operand_value(s: Seq<char>, memory: bool, start: int, end: int) -> Option<Value> {
    match parsed_u8(s.subrange(start, end)) {
        Some(number) => Some(
            if memory {
                Value::Memory { addr: number }
            } else {
                Value::Literal { val: number }
            },
        ),
        None => None,
    }
}

/// Reads a source operand at `at`: an optional `m`, then a run of digits that
/// is not empty. Gives the operand and the position after it, or the position
/// at which digits are missing.
pub open spec fn scan_operand(s: Seq<char>, at: int) -> Result<(Option<Value>, int), int> {
    let start = if 0 <= at < s.len() && s[at] == 'm' {
        at + 1
    } else {
        at
    };
    let end = run_end(s, start, CharClass::Digit);
    if end > start {
        Ok((operand_value(s, start > at, start, end), end))
    } else {
        Err(start)
    }
}

/// Reads a target at `at`: an `m`, then a run of digits that is not empty.
/// Gives the operand and the position after it, or the position at which the
/// `m` or the digits are missing.
pub open spec fn scan_target(s: Seq<char>, at: int) -> Result<(Option<Value>, int), int> {
    if 0 <= at < s.len() && s[at] == 'm' {
        scan_operand(s, at)
    } else {
        Err(at)
    }
}

/// Reads a comma at `at`, with any spaces before and after it. Gives the
/// position after them, or the position at which the comma is missing.
pub open spec fn scan_comma(s: Seq<char>, at: int) -> Result<int, int> {
    let mark = run_end(s, at, CharClass::Space);
    if 0 <= mark < s.len() && s[mark] == ',' {
        Ok(run_end(s, mark + 1, CharClass::Space))
    } else {
        Err(mark)
    }
}

/// Reads an arrow `->` at `at`, with any spaces before and after it. Gives
/// the position after them, or the position at which the arrow is missing.
pub open spec fn scan_arrow(s: Seq<char>, at: int) -> Result<int, int> {
    let mark = run_end(s, at, CharClass::Space);
    if 0 <= mark && mark + 1 < s.len() && s[mark] == '-' && s[mark + 1] == '>' {
        Ok(run_end(s, mark + 2, CharClass::Space))
    } else {
        Err(mark)
    }
}

/// Reads `count` source operands at `at`, two of them separated by a comma.
/// An operand that is not read is the literal 0.
pub open spec fn scan_sources(s: Seq<char>, at: int, count: nat) -> Result<
    (Option<Value>, Option<Value>, int),
    int,
> {
    let none = Some(Value::Literal { val: 0 });
    if count == 0 {
        Ok((none, none, at))
    } else {
        match scan_operand(s, at) {
            Err(stop) => Err(stop),
            Ok((first, after_first)) => if count == 1 {
                Ok((first, none, after_first))
            } else {
                match scan_comma(s, after_first) {
                    Err(stop) => Err(stop),
                    Ok(second_at) => match scan_operand(s, second_at) {
                        Err(stop) => Err(stop),
                        Ok((second, after_second)) => Ok((first, second, after_second)),
                    },
                }
            },
        }
    }
}

/// Reads an arrow and a target at `at` if `wanted`; the target that is not
/// read is the literal 0.
pub open spec fn scan_arrow_target(s: Seq<char>, at: int, wanted: bool) -> Result<
    (Option<Value>, int),
    int,
> {
    if wanted {
        match scan_arrow(s, at) {
            Err(stop) => Err(stop),
            Ok(target_at) => scan_target(s, target_at),
        }
    } else {
        Ok((Some(Value::Literal { val: 0 }), at))
    }
}

/// The instruction with opcode `op` and the given operands, if every operand
/// has a value.
pub open spec fn assemble_checked(
    op: Opcode,
    first: Option<Value>,
    second: Option<Value>,
    target: Option<Value>,
) -> Option<Instruction> {
    if first is Some && second is Some && target is Some {
        Some(Instruction::assemble(op, first->0, second->0, target->0))
    } else {
        None
    }
}

/// Reads the operands of `op` at `at`, and the spaces after them.
///
/// Gives the position after those spaces, with the instruction if the digits
/// of every operand denote a byte; or the position at which the operands
/// depart from the shape that `op` takes.
pub open spec fn scan_operands(s: Seq<char>, at: int, op: Opcode) -> Result<
    (Option<Instruction>, int),
    int,
> {
    match scan_sources(s, at, op.sources()) {
        Err(stop) => Err(stop),
        Ok((first, second, after_sources)) => match scan_arrow_target(
            s,
            after_sources,
            op.has_target(),
        ) {
            Err(stop) => Err(stop),
            Ok((target, after_target)) => Ok(
                (
                    assemble_checked(op, first, second, target),
                    run_end(s, after_target, CharClass::Space),
                ),
            ),
        },
    }
}

/// What a line of source text means: its instruction, or the error that the
/// line shows first.
///
/// The opcode is the run of letters at the start of the line. The errors are
/// looked for in this order: no letters; letters that name no opcode;
/// operands of the wrong shape; characters after the operands; digits that
/// denote no byte.
pub open spec fn parse_line(s: Seq<char>) -> Result<Instruction, ParseErrorView> {
    let name_end = run_end(s, 0, CharClass::Letter);
    let name = s.subrange(0, name_end);
    if name_end == 0 {
        Err(ParseErrorView::InvalidName { near: s })
    } else {
        match Opcode::named(name) {
            None => Err(ParseErrorView::UnknownInstruction { name }),
            Some(op) => match scan_operands(s, run_end(s, name_end, CharClass::Space), op) {
                Err(stop) => Err(ParseErrorView::Malformed { opcode: op, near: s.skip(stop) }),
                Ok((instruction, end)) => if end < s.len() {
                    Err(ParseErrorView::UnexpectedCharacters { rest: s.skip(end) })
                } else {
                    match instruction {
                        None => Err(ParseErrorView::InvalidInteger),
                        Some(instruction) => Ok(instruction),
                    }
                },
            },
        }
    }
}

/// A line that parses gives a well-formed instruction: its target, if it has
/// one, is a memory cell.
pub proof fn lemma_parsed_is_well_formed(s: Seq<char>)
    ensures
        parse_line(s) matches Ok(instruction) ==> instruction.wf(),
{
    if let Ok(instruction) = parse_line(s) {
        let name_end = run_end(s, 0, CharClass::Letter);
        let op = Opcode::named(s.subrange(0, name_end))->0;
        let at = run_end(s, name_end, CharClass::Space);
        let (first, second, after_sources) = scan_sources(s, at, op.sources())->Ok_0;
        let (target, _) = scan_arrow_target(s, after_sources, op.has_target())->Ok_0;
        lemma_assemble_opcode(op, first->0, second->0, target->0);
    }
}

/// Why a line is no instruction, with the place in the line that shows it.
enum Failure {
    InvalidName,
    UnknownInstruction { end: usize },
    Malformed { opcode: Opcode, at: usize },
    UnexpectedCharacters { at: usize },
    InvalidInteger,
}

impl Failure {
    /// The error that the failure stands for in the line `s`.
    spec fn located(self, s: Seq<char>) -> ParseErrorView {
        match self {
            Failure::InvalidName => ParseErrorView::InvalidName { near: s },
            Failure::UnknownInstruction { end } => ParseErrorView::UnknownInstruction {
                name: s.subrange(0, end as int),
            },
            Failure::Malformed { opcode, at } => ParseErrorView::Malformed {
                opcode,
                near: s.skip(at as int),
            },
            Failure::UnexpectedCharacters { at } => ParseErrorView::UnexpectedCharacters {
                rest: s.skip(at as int),
            },
            Failure::InvalidInteger => ParseErrorView::InvalidInteger,
        }
    }

    /// Whether the places that the failure names lie in a line of `len`
    /// characters.
    spec fn within(self, len: int) -> bool {
        match self {
            Failure::UnknownInstruction { end } => end <= len,
            Failure::Malformed { at, .. } => at <= len,
            Failure::UnexpectedCharacters { at } => at <= len,
            _ => true,
        }
    }
}

/// Whether the outcome of reading at a position, with positions as machine
/// integers, is the outcome `model`.
spec fn same_outcome<T>(found: Result<(T, usize), usize>, model: Result<(T, int), int>) -> bool {
    match found {
        Ok((value, end)) => model == Ok::<(T, int), int>((value, end as int)),
        Err(stop) => model == Err::<(T, int), int>(stop as int),
    }
}

/// Whether the position that an outcome names is at most `len`.
spec fn outcome_within<T>(found: Result<(T, usize), usize>, len: int) -> bool {
    match found {
        Ok((_, end)) => end <= len,
        Err(stop) => stop <= len,
    }
}

fn read_operand(text: &[char], at: usize) -> (found: Result<(Option<Value>, usize), usize>)
    requires
        at <= text@.len(),
    ensures
        same_outcome(found, scan_operand(text@, at as int)),
        outcome_within(found, text@.len() as int),
{
    let memory = at < text.len() && text[at] == 'm';
    let start = if memory {
        at + 1
    } else {
        at
    };
    let end = skip_run(text, start, CharClass::Digit);
    if end > start {
        let number = chars_to_u8(text, start, end);
        let value = match number {
            Some(number) => Some(
                if memory {
                    Value::Memory { addr: number }
                } else {
                    Value::Literal { val: number }
                },
            ),
            None => None,
        };
        Ok((value, end))
    } else {
        Err(start)
    }
}

fn read_target(text: &[char], at: usize) -> (found: Result<(Option<Value>, usize), usize>)
    requires
        at <= text@.len(),
    ensures
        same_outcome(found, scan_target(text@, at as int)),
        outcome_within(found, text@.len() as int),
{
    if at < text.len() && text[at] == 'm' {
        read_operand(text, at)
    } else {
        Err(at)
    }
}

fn read_comma(text: &[char], at: usize) -> (found: Result<usize, usize>)
    requires
        at <= text@.len(),
    ensures
        match found {
            Ok(end) => scan_comma(text@, at as int) == Ok::<int, int>(end as int) && end
                <= text@.len(),
            Err(stop) => scan_comma(text@, at as int) == Err::<int, int>(stop as int) && stop
                <= text@.len(),
        },
{
    let mark = skip_run(text, at, CharClass::Space);
    if mark < text.len() && text[mark] == ',' {
        Ok(skip_run(text, mark + 1, CharClass::Space))
    } else {
        Err(mark)
    }
}

fn read_arrow(text: &[char], at: usize) -> (found: Result<usize, usize>)
    requires
        at <= text@.len(),
    ensures
        match found {
            Ok(end) => scan_arrow(text@, at as int) == Ok::<int, int>(end as int) && end
                <= text@.len(),
            Err(stop) => scan_arrow(text@, at as int) == Err::<int, int>(stop as int) && stop
                <= text@.len(),
        },
{
    let mark = skip_run(text, at, CharClass::Space);
    if mark < text.len() && text.len() - mark >= 2 && text[mark] == '-' && text[mark + 1] == '>' {
        Ok(skip_run(text, mark + 2, CharClass::Space))
    } else {
        Err(mark)
    }
}

fn read_operands(text: &[char], at: usize, op: Opcode) -> (found: Result<
    (Option<Instruction>, usize),
    usize,
>)
    requires
        at <= text@.len(),
    ensures
        same_outcome(found, scan_operands(text@, at as int, op)),
        outcome_within(found, text@.len() as int),
{
    let none = Some(Value::Literal { val: 0 });
    let count = op.source_count();
    let mut first = none;
    let mut second = none;
    let mut target = none;
    let mut at = at;
    if count >= 1 {
        match read_operand(text, at) {
            Err(stop) => {
                return Err(stop);
            },
            Ok((value, end)) => {
                first = value;
                at = end;
            },
        }
    }
    if count == 2 {
        match read_comma(text, at) {
            Err(stop) => {
                return Err(stop);
            },
            Ok(end) => {
                at = end;
            },
        }
        match read_operand(text, at) {
            Err(stop) => {
                return Err(stop);
            },
            Ok((value, end)) => {
                second = value;
                at = end;
            },
        }
    }
    if op.writes() {
        match read_arrow(text, at) {
            Err(stop) => {
                return Err(stop);
            },
            Ok(end) => {
                at = end;
            },
        }
        match read_target(text, at) {
            Err(stop) => {
                return Err(stop);
            },
            Ok((value, end)) => {
                target = value;
                at = end;
            },
        }
    }
    let end = skip_run(text, at, CharClass::Space);
    let instruction = match (first, second, target) {
        (Some(first), Some(second), Some(target)) => Some(
            Instruction::build(op, first, second, target),
        ),
        _ => None,
    };
    Ok((instruction, end))
}

/// Parses the line that `text` holds.
fn parse_chars(text: &[char]) -> (result: Result<Instruction, Failure>)
    ensures
        match result {
            Ok(instruction) => parse_line(text@) == Ok::<Instruction, ParseErrorView>(instruction),
            Err(failure) => parse_line(text@) == Err::<Instruction, ParseErrorView>(
                failure.located(text@),
            ) && failure.within(text@.len() as int),
        },
{
    let name_end = skip_run(text, 0, CharClass::Letter);
    if name_end == 0 {
        return Err(Failure::InvalidName);
    }
    let at = skip_run(text, name_end, CharClass::Space);
    let op = match Opcode::lookup(text, 0, name_end) {
        None => {
            return Err(Failure::UnknownInstruction { end: name_end });
        },
        Some(op) => op,
    };
    match read_operands(text, at, op) {
        Err(stop) => Err(Failure::Malformed { opcode: op, at: stop }),
        Ok((instruction, end)) => {
            if end < text.len() {
                Err(Failure::UnexpectedCharacters { at: end })
            } else {
                match instruction {
                    None => Err(Failure::InvalidInteger),
                    Some(instruction) => Ok(instruction),
                }
            }
        },
    }
}

/// Parses the line `input[from..to]`, where `text` holds the characters of
/// `input`.
pub(crate) fn parse_span(input: &str, text: &[char], from: usize, to: usize) -> (result: Result<
    Instruction,
    ParseError,
>)
    requires
        text@ == input@,
        from <= to <= text@.len(),
    ensures
        match result {
            Ok(instruction) => parse_line(input@.subrange(from as int, to as int)) == Ok::<
                Instruction,
                ParseErrorView,
            >(instruction),
            Err(error) => parse_line(input@.subrange(from as int, to as int)) == Err::<
                Instruction,
                ParseErrorView,
            >(error@),
        },
{
    let ghost line = input@.subrange(from as int, to as int);
    match parse_chars(slice_subrange(text, from, to)) {
        Ok(instruction) => Ok(instruction),
        Err(failure) => Err(
            match failure {
                Failure::InvalidName => {
                    let near = input.substring_char(from, to);
                    ParseError::InvalidName { near: String::from_str(near) }
                },
                Failure::UnknownInstruction { end } => {
                    let name = input.substring_char(from, from + end);
                    assert(name@ =~= line.subrange(0, end as int));
                    ParseError::UnknownInstruction { name: String::from_str(name) }
                },
                Failure::Malformed { opcode, at } => {
                    let near = input.substring_char(from + at, to);
                    assert(near@ =~= line.skip(at as int));
                    ParseError::Malformed { opcode, near: String::from_str(near) }
                },
                Failure::UnexpectedCharacters { at } => {
                    let rest = input.substring_char(from + at, to);
                    assert(rest@ =~= line.skip(at as int));
                    ParseError::UnexpectedCharacters { rest: String::from_str(rest) }
                },
                Failure::InvalidInteger => ParseError::InvalidInteger,
            },
        ),
    }
}

/// Parses one line of source text, without its comment, into an instruction.
///
/// The result is what [`parse_line`] gives for the characters of `input`:
/// the instruction, or the error that the line shows first.
pub fn parse_instruction(input: &str) -> (result: Result<Instruction, ParseError>)
    ensures
        match result {
            Ok(instruction) => parse_line(input@) == Ok::<Instruction, ParseErrorView>(
                instruction,
            ) && instruction.wf(),
            Err(error) => parse_line(input@) == Err::<Instruction, ParseErrorView>(error@),
        },
{
    let text = to_chars(input);
    assert(input@.subrange(0, text@.len() as int) =~= input@);
    proof {
        lemma_parsed_is_well_formed(input@);
    }
    parse_span(input, text.as_slice(), 0, text.len())
}

} // verus!
