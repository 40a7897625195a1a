//! What a running program reads, and how a run can fail.

use crate::decimal::{chars_to_u8, decimal_text, parsed_u8, push_decimal};
use crate::text::{run_end, run_start, skip_run, skip_run_back, to_chars, CharClass};
use vstd::prelude::*;
use vstd::string::*;

verus! {

/// Why a run stopped other than by `bye`.
#[derive(Clone, Copy, Debug, PartialEq, Eq, Structural)]
pub enum RuntimeError {
    /// The input ended where `cin` wanted a byte.
    EndOfInput,
    /// The line that `nin` read denotes no byte.
    InvalidNumber,
    /// The instruction pointer, whose value `ip` is, points outside the
    /// program.
    PointerOutOfProgram { ip: u8 },
}

impl RuntimeError {
    /// The message that reports the error.
    pub open spec fn message_text(self) -> Seq<char> {
        match self {
            RuntimeError::EndOfInput => "EOF while reading input"@,
            RuntimeError::InvalidNumber => "Invalid unsigned 8-bit integer"@,
            RuntimeError::PointerOutOfProgram { ip } =>
                "Instruction pointer should remain valid: no instruction at "@ + decimal_text(
                    ip as nat,
                ),
        }
    }

    /// The message that reports the error.
    pub fn message(&self) -> (text: String)
        ensures
            text@ == self.message_text(),
    {
        match self {
            RuntimeError::EndOfInput => String::from_str("EOF while reading input"),
            RuntimeError::InvalidNumber => String::from_str("Invalid unsigned 8-bit integer"),
            RuntimeError::PointerOutOfProgram { ip } => {
                let mut text = String::from_str(
                    "Instruction pointer should remain valid: no instruction at ",
                );
                push_decimal(&mut text, *ip as usize);
                text
            },
        }
    }
}

/// `s` without the white space at its start and at its end.
pub open spec fn trimmed(s: Seq<char>) -> Seq<char> {
    let start = run_end(s, 0, CharClass::Blank);
    let end = run_start(s, s.len() as int, CharClass::Blank);
    if start < end {
        s.subrange(start, end)
    } else {
        Seq::<char>::empty()
    }
}

/// Reads the number that `nin` stores from a line of input.
///
/// The line may end with its line feed. White space around the number is
/// dropped; what is left must denote a byte ([`parsed_u8`]).
pub fn parse_number_line(line: &str) -> (result: Result<u8, RuntimeError>)
    ensures
        result == match parsed_u8(trimmed(line@)) {
            Some(number) => Ok::<u8, RuntimeError>(number),
            None => Err::<u8, RuntimeError>(RuntimeError::InvalidNumber),
        },
{
    let text = to_chars(line);
    let start = skip_run(text.as_slice(), 0, CharClass::Blank);
    let end = skip_run_back(text.as_slice(), start, text.len(), CharClass::Blank);
    assert(text@.subrange(start as int, end as int) =~= trimmed(line@));
    match chars_to_u8(text.as_slice(), start, end) {
        Some(number) => Ok(number),
        None => Err(RuntimeError::InvalidNumber),
    }
}

} // verus!
