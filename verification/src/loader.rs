//! Loading a program from source text.
//!
//! Source text holds one instruction per line. A line that is empty or
//! starts with `#` is passed over; on any other line a `#` starts a comment
//! that runs to the end of the line. Loading stops at the first line that is
//! no instruction.

use crate::decimal::{decimal_text, push_decimal};
use crate::instruction::Instruction;
use crate::parser::{lemma_parsed_is_well_formed, parse_line, parse_span, ParseError, ParseErrorView};
use crate::program::{all_well_formed, Program};
use crate::text::{lemma_run_end, run_end, skip_run, to_chars, CharClass};
use vstd::prelude::*;
use vstd::slice::slice_subrange;
use vstd::string::*;

verus! {

/// Why a source text is no program: the first line that is no instruction,
/// counted from 1, and what is wrong with it.
#[derive(Debug, PartialEq, Eq)]
pub struct LoadError {
    pub line: usize,
    pub error: ParseError,
}

/// A [`LoadError`] with its text as sequences of characters.
pub struct LoadErrorView {
    pub line: nat,
    pub error: ParseErrorView,
}

impl View for LoadError {
    type V = LoadErrorView;

    open spec fn view(&self) -> LoadErrorView {
        LoadErrorView { line: self.line as nat, error: self.error@ }
    }
}

impl LoadErrorView {
    /// The message that reports the error.
    pub open spec fn message(self) -> Seq<char> {
        "Error on line "@ + decimal_text(self.line) + ": "@ + self.error.message()
    }
}

impl LoadError {
    /// The message that reports the error.
    pub fn message(&self) -> (text: String)
        ensures
            text@ == self@.message(),
    {
        let mut text = String::from_str("Error on line ");
        push_decimal(&mut text, self.line);
        text.append(": ");
        let detail = self.error.message();
        text.append(detail.as_str());
        text
    }
}

/// Whether the loader passes over `line`: it is empty or starts with `#`.
pub open spec fn is_skipped(line: Seq<char>) -> bool {
    line.len() == 0 || line[0] == '#'
}

/// The part of `line` that is parsed: the line up to its first `#`.
pub open spec fn statement(line: Seq<char>) -> Seq<char> {
    line.subrange(0, run_end(line, 0, CharClass::Code))
}

/// `found`, with `before` in front of its instructions if it holds any.
pub open spec fn preceded(
    before: Seq<Instruction>,
    found: Result<Seq<Instruction>, LoadErrorView>,
) -> Result<Seq<Instruction>, LoadErrorView> {
    match found {
        Ok(instructions) => Ok(before + instructions),
        Err(error) => Err(error),
    }
}

/// What the lines of `s` from position `from` on hold, where the line at
/// `from` has the number `number`: their instructions in order, or the error
/// of the first line that is no instruction. Lines end at a line feed.
pub open spec fn load_from(s: Seq<char>, from: int, number: nat) -> Result<
    Seq<Instruction>,
    LoadErrorView,
>
    decreases s.len() - from,
    when 0 <= from <= s.len()
    via load_from_decreases
{
    let end = run_end(s, from, CharClass::InLine);
    let line = s.subrange(from, end);
    let rest = if end < s.len() {
        load_from(s, end + 1, number + 1)
    } else {
        Ok(Seq::<Instruction>::empty())
    };
    if is_skipped(line) {
        rest
    } else {
        match parse_line(statement(line)) {
            Err(error) => Err(LoadErrorView { line: number, error }),
            Ok(instruction) => preceded(seq![instruction], rest),
        }
    }
}

#[via_fn]
proof fn load_from_decreases(s: Seq<char>, from: int, number: nat) {
    lemma_run_end(s, from, CharClass::InLine);
}

/// What the source text `s` holds: its instructions in order, or the error
/// of its first line that is no instruction. Lines are counted from 1.
pub open spec fn load(s: Seq<char>) -> Result<Seq<Instruction>, LoadErrorView> {
    load_from(s, 0, 1)
}

/// The instruction on `line` if the loader does not pass over it, or the
/// error of the line.
pub open spec fn entry(line: Seq<char>) -> Result<Option<Instruction>, ParseErrorView> {
    if is_skipped(line) {
        Ok(None)
    } else {
        match parse_line(statement(line)) {
            Ok(instruction) => Ok(Some(instruction)),
            Err(error) => Err(error),
        }
    }
}

/// `before` with the instruction of an entry at its end, if the entry holds
/// one.
pub open spec fn with_entry(before: Seq<Instruction>, found: Option<Instruction>) -> Seq<
    Instruction,
> {
    match found {
        Some(instruction) => before.push(instruction),
        None => before,
    }
}

/// Loading from a line on is loading that line, then the lines after it.
proof fn lemma_load_line(s: Seq<char>, from: int, number: nat, before: Seq<Instruction>)
    requires
        0 <= from <= s.len(),
    ensures
        ({
            let end = run_end(s, from, CharClass::InLine);
            let rest = if end < s.len() {
                load_from(s, end + 1, number + 1)
            } else {
                Ok(Seq::<Instruction>::empty())
            };
            preceded(before, load_from(s, from, number)) == match entry(s.subrange(from, end)) {
                Err(error) => Err(LoadErrorView { line: number, error }),
                Ok(found) => preceded(with_entry(before, found), rest),
            }
        }),
{
    lemma_run_end(s, from, CharClass::InLine);
    let end = run_end(s, from, CharClass::InLine);
    let rest = if end < s.len() {
        load_from(s, end + 1, number + 1)
    } else {
        Ok(Seq::<Instruction>::empty())
    };
    if let Ok(found) = entry(s.subrange(from, end)) {
        if let Ok(more) = rest {
            match found {
                Some(instruction) => {
                    assert(before + (seq![instruction] + more) =~= before.push(instruction)
                        + more);
                },
                None => {},
            }
        }
    }
}

/// Reads the line `content[from..end]`, where `text` holds the characters of
/// `content`.
fn parse_entry(content: &str, text: &[char], from: usize, end: usize) -> (result: Result<
    Option<Instruction>,
    ParseError,
>)
    requires
        text@ == content@,
        from <= end <= text@.len(),
    ensures
        match result {
            Ok(found) => entry(content@.subrange(from as int, end as int)) == Ok::<
                Option<Instruction>,
                ParseErrorView,
            >(found) && (found matches Some(instruction) ==> instruction.wf()),
            Err(error) => entry(content@.subrange(from as int, end as int)) == Err::<
                Option<Instruction>,
                ParseErrorView,
            >(error@),
        },
{
    let ghost line = content@.subrange(from as int, end as int);
    if end == from || text[from] == '#' {
        return Ok(None);
    }
    let stop = from + skip_run(slice_subrange(text, from, end), 0, CharClass::Code);
    assert(content@.subrange(from as int, stop as int) =~= statement(line));
    proof {
        lemma_parsed_is_well_formed(statement(line));
    }
    match parse_span(content, text, from, stop) {
        Ok(instruction) => Ok(Some(instruction)),
        Err(error) => Err(error),
    }
}

/// Loads the program that the source text `content` holds.
///
/// The result is what [`load`] gives for the characters of `content`: the
/// program of all instructions in the order of their lines, or the number of
/// the first line that is no instruction, with its error.
pub fn parse_program(content: &str) -> (result: Result<Program, LoadError>)
    ensures
        match result {
            Ok(program) => load(content@) == Ok::<Seq<Instruction>, LoadErrorView>(program@)
                && all_well_formed(program@),
            Err(error) => load(content@) == Err::<Seq<Instruction>, LoadErrorView>(error@),
        },
{
    let text = to_chars(content);
    let chars = text.as_slice();
    let mut instructions: Vec<Instruction> = Vec::new();
    let mut from: usize = 0;
    let mut index: usize = 0;
    assert(Seq::<Instruction>::empty() + load(content@)->Ok_0 =~= load(content@)->Ok_0);
    loop
        invariant_except_break
            load(content@) == preceded(
                instructions@,
                load_from(content@, from as int, (index + 1) as nat),
            ),
        invariant
            chars@ == content@,
            index <= from <= chars@.len(),
            all_well_formed(instructions@),
        ensures
            all_well_formed(instructions@),
            load(content@) == Ok::<Seq<Instruction>, LoadErrorView>(instructions@),
        decreases chars@.len() - from,
    {
        let end = skip_run(chars, from, CharClass::InLine);
        proof {
            lemma_load_line(content@, from as int, (index + 1) as nat, instructions@);
        }
        match parse_entry(content, chars, from, end) {
            Err(error) => {
                return Err(LoadError { line: index + 1, error });
            },
            Ok(Some(instruction)) => {
                instructions.push(instruction);
            },
            Ok(None) => {},
        }
        if end == chars.len() {
            assert(instructions@ + Seq::<Instruction>::empty() =~= instructions@);
            break;
        }
        from = end + 1;
        index += 1;
    }
    Ok(Program::from_well_formed(instructions))
}

} // verus!
