//! Instructions as source text.

use crate::decimal::{
    decimal_text, is_decimal_digit, lemma_decimal_text, lemma_parsed_decimal_text, push_decimal,
};
use crate::instruction::{lemma_named_is_mnemonic, Instruction, Opcode, Value};
use crate::parser::{
    lemma_parsed_is_well_formed, operand_value, parse_line, scan_arrow, scan_arrow_target,
    scan_comma, scan_operand, scan_sources, scan_target, ParseErrorView,
};
use crate::text::{lemma_run_end_unique, run_end, CharClass};
use vstd::prelude::*;
use vstd::string::*;

verus! {

impl Value {
    /// The operand as source text: its number in decimal, after an `m` if it
    /// is a memory cell.
    pub open spec fn text(self) -> Seq<char> {
        match self {
            Value::Memory { addr } => seq!['m'] + decimal_text(addr as nat),
            Value::Literal { val } => decimal_text(val as nat),
        }
    }

    /// Appends the operand's source text to `out`.
    pub fn push_text(&self, out: &mut String)
        ensures
            final(out)@ == old(out)@ + self.text(),
    {
        match self {
            Value::Memory { addr } => {
                proof {
                    reveal_strlit("m");
                }
                out.append("m");
                push_decimal(out, *addr as usize);
                assert(final(out)@ =~= old(out)@ + self.text());
            },
            Value::Literal { val } => {
                push_decimal(out, *val as usize);
            },
        }
    }

    /// The operand as source text.
    pub fn render(&self) -> (text: String)
        ensures
            text@ == self.text(),
    {
        let mut out = String::new();
        self.push_text(&mut out);
        assert(out@ =~= self.text());
        out
    }
}

/// The text of `count` source operands after an opcode: a space and the
/// first operand, then a comma, a space and the second.
pub open spec fn sources_text(count: nat, first: Value, second: Value) -> Seq<char> {
    if count == 0 {
        Seq::<char>::empty()
    } else if count == 1 {
        seq![' '] + first.text()
    } else {
        seq![' '] + first.text() + seq![',', ' '] + second.text()
    }
}

/// The text of a target after the source operands, if one is `wanted`: an
/// arrow between two spaces, and the operand.
pub open spec fn target_text(wanted: bool, target: Value) -> Seq<char> {
    if wanted {
        seq![' ', '-', '>', ' '] + target.text()
    } else {
        Seq::<char>::empty()
    }
}

impl Instruction {
    /// The instruction as source text: the mnemonic, the source operands
    /// separated by a comma and a space, then an arrow and the target.
    pub open spec fn text(self) -> Seq<char> {
        self.opcode().mnemonic() + sources_text(
            self.opcode().sources(),
            self.first(),
            self.second(),
        ) + target_text(self.opcode().has_target(), self.target())
    }

    /// The instruction as source text.
    pub fn render(&self) -> (text: String)
        ensures
            text@ == self.text(),
    {
        let op = self.op();
        let (first, second, target) = self.operands();
        let count = op.source_count();
        let mut out = String::from_str(op.name());
        proof {
            reveal_strlit(" ");
            reveal_strlit(", ");
            reveal_strlit(" -> ");
        }
        if count >= 1 {
            out.append(" ");
            first.push_text(&mut out);
        }
        if count == 2 {
            out.append(", ");
            second.push_text(&mut out);
        }
        assert(out@ =~= op.mnemonic() + sources_text(count as nat, first, second));
        if op.writes() {
            out.append(" -> ");
            target.push_text(&mut out);
        }
        assert(out@ =~= self.text());
        out
    }
}

/// Where `whole` stands at `at` in `s`, the characters of `s` from `at` on
/// are those of `whole`, and a part of `whole` stands in `s` where it stands
/// in `whole`, moved by `at`.
proof fn lemma_stands_at(s: Seq<char>, at: int, whole: Seq<char>)
    requires
        0 <= at,
        at + whole.len() <= s.len(),
        s.subrange(at, at + whole.len()) == whole,
    ensures
        forall|j: int| 0 <= j < whole.len() ==> s[at + j] == #[trigger] whole[j],
        forall|from: int, to: int|
            0 <= from <= to <= whole.len() ==> s.subrange(at + from, at + to)
                == #[trigger] whole.subrange(from, to),
{
    assert forall|j: int| 0 <= j < whole.len() implies s[at + j] == #[trigger] whole[j] by {
        assert(s.subrange(at, at + whole.len())[j] == s[at + j]);
    }
    assert forall|from: int, to: int| 0 <= from <= to <= whole.len() implies s.subrange(
        at + from,
        at + to,
    ) == #[trigger] whole.subrange(from, to) by {
        assert(s.subrange(at, at + whole.len()).subrange(from, to) =~= s.subrange(
            at + from,
            at + to,
        ));
    }
}

/// The first character of an operand's text is an `m` or a digit.
proof fn lemma_operand_text_head(v: Value)
    ensures
        v.text().len() >= 1,
        v.text()[0] != ' ',
        v is Memory ==> v.text()[0] == 'm',
        v is Literal ==> is_decimal_digit(v.text()[0]),
{
    lemma_decimal_text(v.number() as nat);
    assert(is_decimal_digit(decimal_text(v.number() as nat)[0]));
}

/// Where the text of `v` stands at `at` in `s` and no digit follows it, a
/// source operand read at `at` is `v`.
proof fn lemma_scan_operand_text(s: Seq<char>, at: int, v: Value)
    requires
        0 <= at,
        at + v.text().len() <= s.len(),
        s.subrange(at, at + v.text().len()) == v.text(),
        at + v.text().len() < s.len() ==> !CharClass::Digit.holds(s[at + v.text().len()]),
    ensures
        scan_operand(s, at) == Ok::<(Option<Value>, int), int>((Some(v), at + v.text().len())),
        v is Memory ==> scan_target(s, at) == scan_operand(s, at),
{
    let t = v.text();
    let n = v.number();
    let d = decimal_text(n as nat);
    let end: int = at + t.len();
    let lead: int = if v is Memory {
        1
    } else {
        0
    };
    let start: int = at + lead;
    lemma_decimal_text(n as nat);
    lemma_parsed_decimal_text(n);
    lemma_operand_text_head(v);
    lemma_stands_at(s, at, t);
    assert(s[at + 0] == t[0]);
    assert(t.subrange(lead, t.len() as int) =~= d);
    assert(s.subrange(at + lead, at + t.len()) == t.subrange(lead, t.len() as int));
    assert(s.subrange(start, end) == d);
    assert forall|i: int| start <= i < end implies CharClass::Digit.holds(#[trigger] s[i]) by {
        assert(s.subrange(start, end)[i - start] == s[i]);
        assert(is_decimal_digit(d[i - start]));
    }
    lemma_run_end_unique(s, start, end, CharClass::Digit);
    assert(operand_value(s, v is Memory, start, end) == Some(v));
}

/// A comma at `at` with one space after it, and something other than a space
/// after that, reads as a comma that ends two characters on.
proof fn lemma_scan_comma_text(s: Seq<char>, at: int)
    requires
        0 <= at,
        at + 2 < s.len(),
        s[at] == ',',
        s[at + 1] == ' ',
        s[at + 2] != ' ',
    ensures
        scan_comma(s, at) == Ok::<int, int>(at + 2),
{
    lemma_run_end_unique(s, at, at, CharClass::Space);
    lemma_run_end_unique(s, at + 1, at + 2, CharClass::Space);
}

/// An arrow between two spaces at `at`, with something other than a space
/// after it, reads as an arrow that ends four characters on, whether the
/// reading starts at the first space or after it.
proof fn lemma_scan_arrow_text(s: Seq<char>, at: int)
    requires
        0 <= at,
        at + 4 < s.len(),
        s[at] == ' ',
        s[at + 1] == '-',
        s[at + 2] == '>',
        s[at + 3] == ' ',
        s[at + 4] != ' ',
    ensures
        scan_arrow(s, at) == Ok::<int, int>(at + 4),
        scan_arrow(s, at + 1) == Ok::<int, int>(at + 4),
{
    lemma_run_end_unique(s, at, at + 1, CharClass::Space);
    lemma_run_end_unique(s, at + 1, at + 1, CharClass::Space);
    lemma_run_end_unique(s, at + 3, at + 4, CharClass::Space);
}

/// Where the text of one or two source operands stands at `at` in `s`, with
/// the end of `s` or a space after it, the operands read after the first
/// space are those operands.
proof fn lemma_scan_sources_text(s: Seq<char>, at: int, count: nat, first: Value, second: Value)
    requires
        1 <= count <= 2,
        0 <= at,
        at + sources_text(count, first, second).len() <= s.len(),
        s.subrange(at, at + sources_text(count, first, second).len()) == sources_text(
            count,
            first,
            second,
        ),
        at + sources_text(count, first, second).len() < s.len() ==> s[at + sources_text(
            count,
            first,
            second,
        ).len()] == ' ',
    ensures
        scan_sources(s, at + 1, count) == Ok::<(Option<Value>, Option<Value>, int), int>(
            (
                Some(first),
                if count == 2 {
                    Some(second)
                } else {
                    Some(Value::Literal { val: 0 })
                },
                at + sources_text(count, first, second).len(),
            ),
        ),
{
    let text = sources_text(count, first, second);
    let a = first.text();
    let b = second.text();
    let n: int = a.len() as int;
    let end: int = at + text.len();
    lemma_operand_text_head(first);
    lemma_operand_text_head(second);
    lemma_stands_at(s, at, text);
    assert(text.subrange(1, 1 + n) =~= a);
    assert(s.subrange(at + 1, at + (1 + n)) == text.subrange(1, 1 + n));
    if count == 1 {
        lemma_scan_operand_text(s, at + 1, first);
    } else {
        let comma: int = at + 1 + n;
        assert(text[1 + n] == ',' && text[2 + n] == ' ' && text[3 + n] == b[0]);
        assert(s[at + (1 + n)] == text[1 + n]);
        assert(s[at + (2 + n)] == text[2 + n]);
        assert(s[at + (3 + n)] == text[3 + n]);
        assert(text.subrange(3 + n, text.len() as int) =~= b);
        assert(s.subrange(at + (3 + n), at + text.len()) == text.subrange(
            3 + n,
            text.len() as int,
        ));
        lemma_scan_operand_text(s, at + 1, first);
        lemma_scan_comma_text(s, comma);
        lemma_scan_operand_text(s, comma + 2, second);
    }
}

/// Where `s` ends with the text of an arrow and a target cell, standing at
/// `at`, the arrow and the target read at `at` or one character later are
/// that target.
proof fn lemma_scan_target_text(s: Seq<char>, at: int, target: Value)
    requires
        target is Memory,
        0 <= at,
        at + target_text(true, target).len() == s.len(),
        s.subrange(at, s.len() as int) == target_text(true, target),
    ensures
        scan_arrow_target(s, at, true) == Ok::<(Option<Value>, int), int>(
            (Some(target), s.len() as int),
        ),
        scan_arrow_target(s, at + 1, true) == scan_arrow_target(s, at, true),
{
    let text = target_text(true, target);
    let t = target.text();
    lemma_operand_text_head(target);
    lemma_stands_at(s, at, text);
    assert(text[0] == ' ' && text[1] == '-' && text[2] == '>' && text[3] == ' ' && text[4]
        == t[0]);
    assert(s[at + 0] == text[0]);
    assert(s[at + 1] == text[1]);
    assert(s[at + 2] == text[2]);
    assert(s[at + 3] == text[3]);
    assert(s[at + 4] == text[4]);
    lemma_scan_arrow_text(s, at);
    assert(text.subrange(4, text.len() as int) =~= t);
    assert(s.subrange(at + 4, at + text.len()) == text.subrange(4, text.len() as int));
    lemma_scan_operand_text(s, at + 4, target);
}

/// The letters of a mnemonic are letters.
proof fn lemma_mnemonic_letters(op: Opcode)
    ensures
        op.mnemonic().len() == 3,
        forall|i: int| 0 <= i < 3 ==> CharClass::Letter.holds(#[trigger] op.mnemonic()[i]),
{
}

/// An instruction is assembled from its opcode and the operands that the
/// opcode takes; the others do not matter.
proof fn lemma_assemble_used(i: Instruction, first: Value, second: Value, target: Value)
    requires
        i.opcode().sources() >= 1 ==> first == i.first(),
        i.opcode().sources() == 2 ==> second == i.second(),
        i.opcode().has_target() ==> target == i.target(),
    ensures
        Instruction::assemble(i.opcode(), first, second, target) == i,
{
}

/// Where `s` starts with the mnemonic of `op`, and goes on, if at all, with
/// one space and something other than a space, the name read from `s` is
/// `op`, and the operands start after that space.
proof fn lemma_scan_name(s: Seq<char>, op: Opcode)
    requires
        s.len() >= 3,
        s.subrange(0, 3) == op.mnemonic(),
        s.len() > 3 ==> s.len() > 4 && s[3] == ' ' && s[4] != ' ',
    ensures
        run_end(s, 0, CharClass::Letter) == 3,
        Opcode::named(s.subrange(0, 3)) == Some(op),
        run_end(s, 3, CharClass::Space) == (if s.len() > 3 {
            4int
        } else {
            3int
        }),
{
    let m = op.mnemonic();
    lemma_mnemonic_letters(op);
    assert forall|k: int| 0 <= k < 3 implies CharClass::Letter.holds(#[trigger] s[k]) by {
        assert(s.subrange(0, 3)[k] == s[k]);
    }
    lemma_run_end_unique(s, 0, 3, CharClass::Letter);
    lemma_named_is_mnemonic(m);
    if s.len() > 3 {
        lemma_run_end_unique(s, 3, 4, CharClass::Space);
    } else {
        lemma_run_end_unique(s, 3, 3, CharClass::Space);
    }
}

/// Where `s` holds, from its fourth character on, the text of `count` source
/// operands and of a target if one is `wanted`, reading the operands gives
/// them back and ends where `s` ends. An operand that is not read is the
/// literal 0.
proof fn lemma_scan_operands_text(
    s: Seq<char>,
    count: nat,
    wanted: bool,
    first: Value,
    second: Value,
    target: Value,
)
    requires
        count <= 2,
        wanted ==> target is Memory,
        s.len() >= 3,
        s.subrange(3, s.len() as int) == sources_text(count, first, second) + target_text(
            wanted,
            target,
        ),
    ensures
        s.len() > 3 ==> s.len() > 4 && s[3] == ' ' && s[4] != ' ',
        ({
            let at: int = if s.len() > 3 {
                4
            } else {
                3
            };
            let none = Some(Value::Literal { val: 0 });
            match scan_sources(s, at, count) {
                Err(_) => false,
                Ok((a, b, after_sources)) => {
                    &&& a == if count >= 1 {
                        Some(first)
                    } else {
                        none
                    }
                    &&& b == if count == 2 {
                        Some(second)
                    } else {
                        none
                    }
                    &&& scan_arrow_target(s, after_sources, wanted) == Ok::<
                        (Option<Value>, int),
                        int,
                    >(
                        (
                            if wanted {
                                Some(target)
                            } else {
                                none
                            },
                            s.len() as int,
                        ),
                    )
                },
            }
        }),
{
    let sources = sources_text(count, first, second);
    let tail = target_text(wanted, target);
    let rest = sources + tail;
    let n: int = sources.len() as int;
    let after_sources: int = 3 + n;
    lemma_operand_text_head(first);
    lemma_operand_text_head(target);
    lemma_stands_at(s, 3, rest);
    if s.len() > 3 {
        assert(rest[0] == ' ' && rest[1] != ' ') by {
            if count > 0 {
                assert(rest[0] == sources[0]);
                assert(rest[1] == sources[1]);
                assert(sources[1] == first.text()[0]);
            } else {
                assert(rest[0] == tail[0]);
                assert(rest[1] == tail[1]);
            }
        }
        assert(s[3int + 0] == rest[0]);
        assert(s[3int + 1] == rest[1]);
    }
    if count > 0 {
        assert(rest.subrange(0, n) =~= sources);
        assert(s.subrange(3int + 0, 3 + n) == rest.subrange(0, n));
        if wanted {
            assert(rest[n] == tail[0]);
            assert(s[3 + n] == rest[n]);
        }
        lemma_scan_sources_text(s, 3, count, first, second);
    }
    if wanted {
        assert(rest.subrange(n, rest.len() as int) =~= tail);
        assert(s.subrange(3 + n, 3 + rest.len() as int) == rest.subrange(n, rest.len() as int));
        lemma_scan_target_text(s, after_sources, target);
    }
}

/// Rendering and parsing are inverse to each other on well-formed
/// instructions: the text of such an instruction parses, and parses to the
/// instruction itself.
pub proof fn lemma_parse_rendered(i: Instruction)
    requires
        i.wf(),
    ensures
        parse_line(i.text()) == Ok::<Instruction, ParseErrorView>(i),
{
    let s = i.text();
    let op = i.opcode();
    let count = op.sources();
    let wanted = op.has_target();
    let none = Value::Literal { val: 0 };
    lemma_mnemonic_letters(op);
    assert(s.subrange(0, 3) =~= op.mnemonic());
    assert(s.subrange(3, s.len() as int) =~= sources_text(count, i.first(), i.second())
        + target_text(wanted, i.target()));
    lemma_scan_operands_text(s, count, wanted, i.first(), i.second(), i.target());
    lemma_scan_name(s, op);
    lemma_run_end_unique(s, s.len() as int, s.len() as int, CharClass::Space);
    lemma_assemble_used(
        i,
        if count >= 1 {
            i.first()
        } else {
            none
        },
        if count == 2 {
            i.second()
        } else {
            none
        },
        if wanted {
            i.target()
        } else {
            none
        },
    );
}

/// Rendering a parsed instruction and parsing the text again gives the same
/// instruction.
pub proof fn lemma_reparse(s: Seq<char>)
    ensures
        parse_line(s) matches Ok(instruction) ==> parse_line(instruction.text()) == Ok::<
            Instruction,
            ParseErrorView,
        >(instruction),
{
    if let Ok(instruction) = parse_line(s) {
        lemma_parsed_is_well_formed(s);
        lemma_parse_rendered(instruction);
    }
}

} // verus!
