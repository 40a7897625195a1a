use cellvm::{parse_number_line, parse_program, Instruction, Machine, Program, RuntimeError, Step, Value};

/// What a run wrote, and how it ended: with an exit code, with an error, or
/// by running out of steps.
struct Run {
    output: String,
    end: Option<Result<u8, RuntimeError>>,
    memory: [u8; 256],
}

/// Runs `source` against `input` for at most `limit` steps, reading and
/// writing as a front end would.
fn run(source: &str, input: &[u8], limit: usize) -> Run {
    let program = parse_program(source).expect("the source is a program");
    let mut machine = Machine::new(program);
    let mut output = String::new();
    let mut unread = input;
    let mut end = None;
    for _ in 0..limit {
        match machine.step() {
            Step::Ran => {}
            Step::WriteChar(c) => output.push(c),
            Step::WriteNumber(n) => output.push_str(&n.to_string()),
            Step::ReadChar => match unread.split_first() {
                Some((byte, rest)) => {
                    unread = rest;
                    assert!(machine.feed(*byte));
                }
                None => {
                    end = Some(Err(RuntimeError::EndOfInput));
                    break;
                }
            },
            Step::ReadNumber => {
                let stop = unread.iter().position(|b| *b == b'\n').map_or(unread.len(), |p| p + 1);
                let (line, rest) = unread.split_at(stop);
                unread = rest;
                match parse_number_line(std::str::from_utf8(line).unwrap()) {
                    Ok(number) => assert!(machine.feed(number)),
                    Err(error) => {
                        end = Some(Err(error));
                        break;
                    }
                }
            }
            Step::Halted(code) => {
                end = Some(Ok(code));
                break;
            }
            Step::OutOfProgram(ip) => {
                end = Some(Err(RuntimeError::PointerOutOfProgram { ip }));
                break;
            }
        }
    }
    Run { output, end, memory: *machine.memory() }
}

fn machine_of(instructions: Vec<Instruction>) -> Machine {
    Machine::new(Program::new(instructions).expect("the instructions are well-formed"))
}

fn mem(addr: u8) -> Value {
    Value::Memory { addr }
}

fn lit(val: u8) -> Value {
    Value::Literal { val }
}

#[test]
fn prints_a_character_and_exits() {
    let run = run("set 65 -> m1\nout m1\nbye 0\n", b"", 100);
    assert_eq!(run.output, "A");
    assert_eq!(run.end, Some(Ok(0)));
}

#[test]
fn prints_a_sum_and_exits() {
    let run = run("add 2,3 -> m1\nnum m1\nbye 0\n", b"", 100);
    assert_eq!(run.output, "5");
    assert_eq!(run.end, Some(Ok(0)));
}

#[test]
fn echoes_an_input_byte() {
    let run = run("cin -> m1\nout m1\nbye 0\n", b"A", 100);
    assert_eq!(run.output, "A");
    assert_eq!(run.end, Some(Ok(0)));
}

#[test]
fn echoes_an_input_number() {
    let run = run("nin -> m1\nnum m1\nbye 0\n", b"200", 100);
    assert_eq!(run.output, "200");
    assert_eq!(run.end, Some(Ok(0)));
    let run = self::run("nin -> m1\nnum m1\nbye 0\n", b"  200 \r\n", 100);
    assert_eq!(run.output, "200");
}

#[test]
fn exit_code_comes_from_the_operand_of_bye() {
    assert_eq!(run("bye 7", b"", 10).end, Some(Ok(7)));
    assert_eq!(run("set 255 -> m9\nbye m9", b"", 10).end, Some(Ok(255)));
    // The pointer is cell 0: at the second instruction it holds 1.
    assert_eq!(run("nop\nbye m0", b"", 10).end, Some(Ok(1)));
}

#[test]
fn memory_starts_at_zero() {
    let machine = machine_of(vec![Instruction::Nop]);
    assert_eq!(machine.pointer(), 0);
    assert!(machine.memory().iter().all(|cell| *cell == 0));
    assert_eq!(machine.memory().len(), 256);
    assert_eq!(machine.program().len(), 1);
}

#[test]
fn add_wraps_modulo_256() {
    let run = run("add 200, 100 -> m1\nadd 255, 1 -> m2\nadd 255, 255 -> m3\nadd 0, 0 -> m4\nbye 0", b"", 10);
    assert_eq!(run.memory[1], 44);
    assert_eq!(run.memory[2], 0);
    assert_eq!(run.memory[3], 254);
    assert_eq!(run.memory[4], 0);
}

#[test]
fn add_wraps_for_all_operands() {
    for a in 0..=255u8 {
        for b in [0u8, 1, 2, 127, 128, 200, 254, 255] {
            let mut machine = machine_of(vec![Instruction::Add { left: lit(a), right: lit(b), tgt: mem(5) }]);
            assert_eq!(machine.step(), Step::Ran);
            assert_eq!(machine.memory()[5] as u32, (a as u32 + b as u32) % 256);
            assert_eq!(machine.pointer(), 1);
        }
    }
}

#[test]
fn sub_wraps_modulo_256() {
    let run = run("sub 3, 5 -> m1\nsub 0, 1 -> m2\nsub 0, 255 -> m3\nsub 9, 9 -> m4\nbye 0", b"", 10);
    assert_eq!(run.memory[1], 254);
    assert_eq!(run.memory[2], 255);
    assert_eq!(run.memory[3], 1);
    assert_eq!(run.memory[4], 0);
}

#[test]
fn sub_wraps_for_all_operands() {
    for a in 0..=255u8 {
        for b in [0u8, 1, 2, 127, 128, 200, 254, 255] {
            let mut machine = machine_of(vec![Instruction::Sub { left: lit(a), right: lit(b), tgt: mem(5) }]);
            assert_eq!(machine.step(), Step::Ran);
            assert_eq!(machine.memory()[5] as i32, (a as i32 - b as i32).rem_euclid(256));
        }
    }
}

#[test]
fn and_xor_are_bitwise() {
    let run = run("and 12, 10 -> m1\nxor 12, 10 -> m2\nand 255, 0 -> m3\nxor 255, 255 -> m4\nbye 0", b"", 10);
    assert_eq!(run.memory[1], 8);
    assert_eq!(run.memory[2], 6);
    assert_eq!(run.memory[3], 0);
    assert_eq!(run.memory[4], 0);
}

#[test]
fn not_is_logical() {
    let run = run("not 0 -> m1\nnot 1 -> m2\nnot 255 -> m3\nnot m200 -> m4\nbye 0", b"", 10);
    assert_eq!(run.memory[1], 1);
    assert_eq!(run.memory[2], 0);
    assert_eq!(run.memory[3], 0);
    assert_eq!(run.memory[4], 1);
}

#[test]
fn not_of_every_byte() {
    for x in 0..=255u8 {
        let mut machine = machine_of(vec![Instruction::Not { src: lit(x), tgt: mem(1) }]);
        machine.step();
        assert_eq!(machine.memory()[1], if x == 0 { 1 } else { 0 });
    }
}

#[test]
fn operands_read_memory() {
    let run = run("set 40 -> m1\nset 2 -> m2\nadd m1, m2 -> m3\nsub m1, m2 -> m4\nset m3 -> m5\nbye m4", b"", 10);
    assert_eq!(run.memory[3], 42);
    assert_eq!(run.memory[5], 42);
    assert_eq!(run.end, Some(Ok(38)));
}

#[test]
fn jump_not_taken_moves_on_by_one() {
    for check in 1..=255u8 {
        let mut machine = machine_of(vec![
            Instruction::Fwd { count: lit(5), check: lit(check) },
            Instruction::Bak { count: lit(5), check: lit(check) },
        ]);
        assert_eq!(machine.step(), Step::Ran);
        assert_eq!(machine.pointer(), 1);
        assert_eq!(machine.step(), Step::Ran);
        assert_eq!(machine.pointer(), 2);
        assert!(machine.memory()[1..].iter().all(|cell| *cell == 0));
    }
}

#[test]
fn forward_jump_taken_sets_the_pointer() {
    // Jumps over the instruction that would exit with 1.
    let run = run("fwd 2, 0\nbye 1\nbye 2", b"", 10);
    assert_eq!(run.end, Some(Ok(2)));
    assert_eq!(run.memory[0], 2);
}

#[test]
fn backward_jump_taken_sets_the_pointer() {
    // Counts cell 1 up to 3: the jump goes back while cell 2 is 0.
    let source = "add m1, 1 -> m1\nsub m1, 3 -> m3\nnot m3 -> m4\nbak 3, m4\nbye m1";
    let run = run(source, b"", 100);
    assert_eq!(run.end, Some(Ok(3)));
}

#[test]
fn jumps_wrap_modulo_256() {
    let mut machine = machine_of(vec![Instruction::Bak { count: lit(1), check: lit(0) }]);
    assert_eq!(machine.step(), Step::Ran);
    assert_eq!(machine.pointer(), 255);
    assert_eq!(machine.step(), Step::OutOfProgram(255));
    let mut machine = machine_of(vec![
        Instruction::Assign { src: lit(200), tgt: mem(9) },
        Instruction::Fwd { count: mem(9), check: mem(1) },
    ]);
    machine.step();
    machine.step();
    assert_eq!(machine.pointer(), 201);
}

#[test]
fn jump_by_zero_stays() {
    let mut machine = machine_of(vec![Instruction::Fwd { count: lit(0), check: lit(0) }]);
    for _ in 0..5 {
        assert_eq!(machine.step(), Step::Ran);
        assert_eq!(machine.pointer(), 0);
    }
}

#[test]
fn jump_count_may_be_the_pointer() {
    let run = run("nop\nnop\nbak m0, 0\nbye 9", b"", 4);
    // At the third instruction the pointer is 2; back by 2 is the start.
    assert_eq!(run.end, None);
    assert_eq!(run.memory[0], 1);
}

#[test]
fn writing_cell_zero_redirects() {
    // The pointer moves on after the write: 2 + 1 = 3.
    let run = run("set 2 -> m0\nbye 1\nbye 2\nbye 3", b"", 10);
    assert_eq!(run.end, Some(Ok(3)));
    let run = self::run("add 1, 1 -> m0\nbye 1\nbye 2\nbye 3", b"", 10);
    assert_eq!(run.end, Some(Ok(3)));
    let run = self::run("cin -> m0\nbye 1\nbye 2\nbye 3", &[1], 10);
    assert_eq!(run.end, Some(Ok(2)));
}

#[test]
fn pointer_wraps_after_the_last_cell_value() {
    let mut instructions = vec![Instruction::Nop; 256];
    instructions[0] = Instruction::Assign { src: lit(254), tgt: mem(0) };
    let mut machine = machine_of(instructions);
    machine.step();
    assert_eq!(machine.pointer(), 255);
    machine.step();
    assert_eq!(machine.pointer(), 0);
}

#[test]
fn output_steps_hand_out_what_is_written() {
    let mut machine = machine_of(vec![
        Instruction::Out { src: lit(10) },
        Instruction::Out { src: lit(233) },
        Instruction::Num { src: lit(0) },
        Instruction::Num { src: lit(255) },
    ]);
    assert_eq!(machine.step(), Step::WriteChar('\n'));
    assert_eq!(machine.step(), Step::WriteChar('\u{e9}'));
    assert_eq!(machine.step(), Step::WriteNumber(0));
    assert_eq!(machine.step(), Step::WriteNumber(255));
    assert_eq!(machine.pointer(), 4);
}

#[test]
fn no_newline_is_added_to_output() {
    let run = run("num 1\nnum 23\nout 32\nnum 255\nbye 0", b"", 10);
    assert_eq!(run.output, "123 255");
}

#[test]
fn input_steps_wait_until_fed() {
    let mut machine = machine_of(vec![Instruction::Cin { tgt: mem(3) }, Instruction::Nin { tgt: mem(4) }]);
    assert_eq!(machine.step(), Step::ReadChar);
    assert_eq!(machine.step(), Step::ReadChar);
    assert_eq!(machine.pointer(), 0);
    assert!(machine.feed(65));
    assert_eq!(machine.memory()[3], 65);
    assert_eq!(machine.pointer(), 1);
    assert_eq!(machine.step(), Step::ReadNumber);
    assert!(machine.feed(200));
    assert_eq!(machine.memory()[4], 200);
    assert_eq!(machine.pointer(), 2);
}

#[test]
fn feed_is_refused_when_nothing_waits() {
    let mut machine = machine_of(vec![Instruction::Nop, Instruction::Bye { code: lit(0) }]);
    assert!(!machine.feed(9));
    assert_eq!(machine.pointer(), 0);
    assert!(machine.memory().iter().all(|cell| *cell == 0));
    machine.step();
    assert!(!machine.feed(9));
    let mut empty = machine_of(vec![]);
    assert!(!empty.feed(9));
}

#[test]
fn end_of_input_stops_cin() {
    let run = run("cin -> m1\ncin -> m2\nbye 0", b"x", 10);
    assert_eq!(run.end, Some(Err(RuntimeError::EndOfInput)));
    assert_eq!(run.memory[1], b'x');
    assert_eq!(RuntimeError::EndOfInput.message(), "EOF while reading input");
}

#[test]
fn bad_number_stops_nin() {
    for input in ["abc\n", "256\n", "\n", "", "1 2\n", "-1\n"] {
        let run = run("nin -> m1\nbye 0", input.as_bytes(), 10);
        assert_eq!(run.end, Some(Err(RuntimeError::InvalidNumber)), "{:?}", input);
    }
    assert_eq!(RuntimeError::InvalidNumber.message(), "Invalid unsigned 8-bit integer");
}

#[test]
fn cin_and_nin_share_the_input() {
    let run = run("cin -> m1\nnin -> m2\ncin -> m3\nbye 0", b"x12\ny", 10);
    assert_eq!(run.memory[1], b'x');
    assert_eq!(run.memory[2], 12);
    assert_eq!(run.memory[3], b'y');
    assert_eq!(run.end, Some(Ok(0)));
}

#[test]
fn halted_machine_stays_halted() {
    let mut machine = machine_of(vec![Instruction::Bye { code: lit(3) }]);
    assert_eq!(machine.step(), Step::Halted(3));
    assert_eq!(machine.step(), Step::Halted(3));
    assert_eq!(machine.pointer(), 0);
}

#[test]
fn pointer_outside_the_program_is_reported() {
    let mut machine = machine_of(vec![Instruction::Nop]);
    assert_eq!(machine.step(), Step::Ran);
    assert_eq!(machine.step(), Step::OutOfProgram(1));
    assert_eq!(machine.step(), Step::OutOfProgram(1));
    let mut empty = machine_of(vec![]);
    assert_eq!(empty.step(), Step::OutOfProgram(0));
    assert_eq!(
        RuntimeError::PointerOutOfProgram { ip: 17 }.message(),
        "Instruction pointer should remain valid: no instruction at 17"
    );
}

#[test]
fn program_without_bye_runs_off_its_end() {
    let run = run("set 1 -> m1\nnop", b"", 10);
    assert_eq!(run.end, Some(Err(RuntimeError::PointerOutOfProgram { ip: 2 })));
}

#[test]
fn endless_loop_is_not_stopped_by_the_machine() {
    let run = run("bak 0, 0", b"", 1000);
    assert_eq!(run.end, None);
}

#[test]
fn program_rejects_ill_formed_instructions() {
    assert!(Program::new(vec![Instruction::Nop, Instruction::Cin { tgt: lit(1) }]).is_none());
    let program = Program::new(vec![Instruction::Nop, Instruction::Cin { tgt: mem(1) }]).unwrap();
    assert_eq!(program.len(), 2);
    assert!(!program.is_empty());
    assert_eq!(program.get(1), Some(Instruction::Cin { tgt: mem(1) }));
    assert_eq!(program.get(2), None);
    assert_eq!(program.instructions().len(), 2);
    assert!(Program::new(vec![]).unwrap().is_empty());
}

#[test]
fn resolve_reads_literals_and_cells() {
    let mut memory = [0u8; 256];
    memory[255] = 9;
    assert_eq!(lit(5).resolve(&memory), 5);
    assert_eq!(mem(255).resolve(&memory), 9);
    assert_eq!(mem(0).resolve(&memory), 0);
}
