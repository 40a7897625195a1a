use cellvm::{parse_number_line, parse_program, Instruction, LoadError, ParseError, RuntimeError, Value};

fn load(source: &str) -> Result<Vec<Instruction>, LoadError> {
    parse_program(source).map(|program| program.instructions().clone())
}

fn lit(val: u8) -> Value {
    Value::Literal { val }
}

#[test]
fn loads_instructions_in_file_order() {
    let loaded = load("set 65 -> m1\nout m1\nbye 0\n").unwrap();
    assert_eq!(
        loaded,
        vec![
            Instruction::Assign { src: lit(65), tgt: Value::Memory { addr: 1 } },
            Instruction::Out { src: Value::Memory { addr: 1 } },
            Instruction::Bye { code: lit(0) },
        ]
    );
}

#[test]
fn last_line_needs_no_line_feed() {
    assert_eq!(load("nop\nbye 0").unwrap().len(), 2);
    assert_eq!(load("nop").unwrap(), vec![Instruction::Nop]);
}

#[test]
fn empty_source_is_an_empty_program() {
    assert!(load("").unwrap().is_empty());
    assert!(load("\n\n\n").unwrap().is_empty());
    assert!(load("# nothing here\n").unwrap().is_empty());
}

#[test]
fn skips_blank_lines_and_comment_lines() {
    let loaded = load("# a program\n\nnop\n\n# the end\nbye 0\n\n").unwrap();
    assert_eq!(loaded, vec![Instruction::Nop, Instruction::Bye { code: lit(0) }]);
}

#[test]
fn trailing_comment_is_cut_off() {
    let loaded = load("num 5 # five\nbye 0# done\nnop#").unwrap();
    assert_eq!(
        loaded,
        vec![Instruction::Num { src: lit(5) }, Instruction::Bye { code: lit(0) }, Instruction::Nop]
    );
}

#[test]
fn unknown_opcode_aborts_the_load() {
    let error = load("foo 1").unwrap_err();
    assert_eq!(error.line, 1);
    assert_eq!(error.error, ParseError::UnknownInstruction { name: "foo".to_string() });
    assert_eq!(error.message(), "Error on line 1: Unknown instruction `foo`");
}

#[test]
fn out_of_range_literal_aborts_the_load() {
    let error = load("nop\nset 256 -> m0\nbye 0").unwrap_err();
    assert_eq!(error, LoadError { line: 2, error: ParseError::InvalidInteger });
    assert_eq!(error.message(), "Error on line 2: Error parsing integer");
}

#[test]
fn line_numbers_count_skipped_lines() {
    let error = load("# one\n\nnop\n# four\nout\nbye 0").unwrap_err();
    assert_eq!(error.line, 5);
    assert_eq!(error.message(), "Error on line 5: Error while parsing `out` instruction near ``");
}

#[test]
fn first_bad_line_is_reported() {
    let error = load("nop\nfoo\nbar\n").unwrap_err();
    assert_eq!(error.message(), "Error on line 2: Unknown instruction `foo`");
}

#[test]
fn line_numbers_have_several_digits() {
    let mut source = String::new();
    for _ in 0..1233 {
        source.push_str("nop\n");
    }
    source.push_str("out 1 2\n");
    let error = load(&source).unwrap_err();
    assert_eq!(error.line, 1234);
    assert_eq!(error.message(), "Error on line 1234: Unexpected characters: `2`");
}

#[test]
fn error_text_stops_at_the_comment() {
    let error = load("out 1 2 # two\n").unwrap_err();
    assert_eq!(error.error, ParseError::UnexpectedCharacters { rest: "2 ".to_string() });
}

#[test]
fn indented_comment_is_no_comment_line() {
    let error = load("  # indented\n").unwrap_err();
    assert_eq!(error.error, ParseError::InvalidName { near: "  ".to_string() });
    assert_eq!(error.message(), "Error on line 1: Not a valid instruction name: `  `");
}

#[test]
fn line_of_spaces_is_no_blank_line() {
    let error = load("nop\n   \nnop").unwrap_err();
    assert_eq!(error, LoadError { line: 2, error: ParseError::InvalidName { near: "   ".to_string() } });
}

#[test]
fn carriage_return_is_an_unexpected_character() {
    let error = load("nop\r\nbye 0\r\n").unwrap_err();
    assert_eq!(error, LoadError { line: 1, error: ParseError::UnexpectedCharacters { rest: "\r".to_string() } });
}

#[test]
fn source_with_characters_outside_ascii() {
    let loaded = load("# caf\u{e9} \u{4e16}\u{754c}\nnop # \u{1f600}\nbye 0").unwrap();
    assert_eq!(loaded.len(), 2);
    let error = load("# \u{4e16}\nout \u{4e16}\u{754c} 1").unwrap_err();
    assert_eq!(error.line, 2);
    assert_eq!(
        error.error,
        ParseError::Malformed { opcode: cellvm::Opcode::Out, near: "\u{4e16}\u{754c} 1".to_string() }
    );
}

#[test]
fn long_program_loads() {
    let mut source = String::new();
    for n in 0..300 {
        source.push_str(&format!("set {} -> m{}\n", n % 256, (n * 7) % 256));
    }
    let loaded = load(&source).unwrap();
    assert_eq!(loaded.len(), 300);
    assert_eq!(loaded[299], Instruction::Assign { src: lit(43), tgt: Value::Memory { addr: 45 } });
}

#[test]
fn number_line_is_trimmed() {
    assert_eq!(parse_number_line("200"), Ok(200));
    assert_eq!(parse_number_line("200\n"), Ok(200));
    assert_eq!(parse_number_line("  7\t\r\n"), Ok(7));
    assert_eq!(parse_number_line("\u{a0}\u{2003}12\u{3000}\u{85}"), Ok(12));
    assert_eq!(parse_number_line("+5\n"), Ok(5));
    assert_eq!(parse_number_line("000\n"), Ok(0));
}

#[test]
fn number_line_must_hold_one_byte() {
    for line in ["", "\n", "   ", "256", "-1", "1 2", "12a", "a", "1\u{200b}", "\u{feff}1", "0x1"] {
        assert_eq!(parse_number_line(line), Err(RuntimeError::InvalidNumber), "{:?}", line);
    }
}

#[test]
fn number_line_agrees_with_the_standard_library() {
    let samples = [
        "1", " 1", "1 ", "\t1\n", "\u{b}1\u{c}", "\u{1c}1", "\u{1f}1", "\u{85}1", "\u{a0}1",
        "\u{1680}1", "\u{180e}1", "\u{2000}1", "\u{200a}1", "\u{200b}1", "\u{2028}1", "\u{2029}1",
        "\u{202f}1", "\u{205f}1", "\u{2060}1", "\u{3000}1", "\u{feff}1", "1\u{2007}", " + 1", "+ 1",
        " 255 ", " 256 ", "",
    ];
    for line in samples {
        assert_eq!(parse_number_line(line).ok(), line.trim().parse::<u8>().ok(), "{:?}", line);
    }
}
