use cellvm::{parse_instruction, Instruction, Value};

fn operands() -> Vec<Value> {
    let mut all = Vec::new();
    for n in [0u8, 1, 9, 10, 42, 99, 100, 199, 200, 255] {
        all.push(Value::Literal { val: n });
        all.push(Value::Memory { addr: n });
    }
    all
}

fn cells() -> Vec<Value> {
    [0u8, 7, 10, 100, 255].iter().map(|n| Value::Memory { addr: *n }).collect()
}

fn check_round_trip(instruction: Instruction) {
    let text = instruction.render();
    assert_eq!(parse_instruction(&text), Ok(instruction), "{}", text);
}

#[test]
fn renders_operands() {
    assert_eq!(Value::Literal { val: 0 }.render(), "0");
    assert_eq!(Value::Literal { val: 9 }.render(), "9");
    assert_eq!(Value::Literal { val: 10 }.render(), "10");
    assert_eq!(Value::Literal { val: 255 }.render(), "255");
    assert_eq!(Value::Memory { addr: 0 }.render(), "m0");
    assert_eq!(Value::Memory { addr: 105 }.render(), "m105");
}

#[test]
fn renders_every_opcode() {
    let m = |addr| Value::Memory { addr };
    let l = |val| Value::Literal { val };
    assert_eq!(Instruction::Assign { src: l(65), tgt: m(1) }.render(), "set 65 -> m1");
    assert_eq!(Instruction::Add { left: l(2), right: m(3), tgt: m(1) }.render(), "add 2, m3 -> m1");
    assert_eq!(Instruction::Sub { left: m(2), right: l(3), tgt: m(1) }.render(), "sub m2, 3 -> m1");
    assert_eq!(Instruction::And { left: l(2), right: l(3), tgt: m(1) }.render(), "and 2, 3 -> m1");
    assert_eq!(Instruction::Xor { left: m(2), right: m(3), tgt: m(1) }.render(), "xor m2, m3 -> m1");
    assert_eq!(Instruction::Not { src: m(0), tgt: m(255) }.render(), "not m0 -> m255");
    assert_eq!(Instruction::Out { src: m(1) }.render(), "out m1");
    assert_eq!(Instruction::Num { src: l(100) }.render(), "num 100");
    assert_eq!(Instruction::Cin { tgt: m(1) }.render(), "cin -> m1");
    assert_eq!(Instruction::Nin { tgt: m(12) }.render(), "nin -> m12");
    assert_eq!(Instruction::Bak { count: l(3), check: m(2) }.render(), "bak 3, m2");
    assert_eq!(Instruction::Fwd { count: m(3), check: l(0) }.render(), "fwd m3, 0");
    assert_eq!(Instruction::Bye { code: l(0) }.render(), "bye 0");
    assert_eq!(Instruction::Nop.render(), "nop");
}

#[test]
fn renders_a_literal_target_as_it_is() {
    let odd = Instruction::Assign { src: Value::Literal { val: 1 }, tgt: Value::Literal { val: 2 } };
    assert_eq!(odd.render(), "set 1 -> 2");
    assert!(parse_instruction(&odd.render()).is_err());
}

#[test]
fn round_trip_of_one_operand_instructions() {
    for src in operands() {
        check_round_trip(Instruction::Out { src });
        check_round_trip(Instruction::Num { src });
        check_round_trip(Instruction::Bye { code: src });
    }
    for tgt in cells() {
        check_round_trip(Instruction::Cin { tgt });
        check_round_trip(Instruction::Nin { tgt });
    }
    check_round_trip(Instruction::Nop);
}

#[test]
fn round_trip_of_set_and_not() {
    for src in operands() {
        for tgt in cells() {
            check_round_trip(Instruction::Assign { src, tgt });
            check_round_trip(Instruction::Not { src, tgt });
        }
    }
}

#[test]
fn round_trip_of_jumps() {
    for count in operands() {
        for check in operands() {
            check_round_trip(Instruction::Bak { count, check });
            check_round_trip(Instruction::Fwd { count, check });
        }
    }
}

#[test]
fn round_trip_of_arithmetic() {
    for left in operands() {
        for right in operands() {
            for tgt in cells() {
                check_round_trip(Instruction::Add { left, right, tgt });
                check_round_trip(Instruction::Sub { left, right, tgt });
                check_round_trip(Instruction::And { left, right, tgt });
                check_round_trip(Instruction::Xor { left, right, tgt });
            }
        }
    }
}

#[test]
fn parsed_text_renders_in_canonical_form() {
    let instruction = parse_instruction("add   007,m3->m1  ").unwrap();
    assert_eq!(instruction.render(), "add 7, m3 -> m1");
    assert_eq!(parse_instruction(&instruction.render()), Ok(instruction));
}

#[test]
fn instruction_parts() {
    let add = Instruction::Add {
        left: Value::Literal { val: 1 },
        right: Value::Memory { addr: 2 },
        tgt: Value::Memory { addr: 3 },
    };
    let (first, second, target) = add.operands();
    assert_eq!(first, Value::Literal { val: 1 });
    assert_eq!(second, Value::Memory { addr: 2 });
    assert_eq!(target, Value::Memory { addr: 3 });
    assert_eq!(Instruction::build(add.op(), first, second, target), add);
    let bye = Instruction::Bye { code: Value::Memory { addr: 9 } };
    let (first, second, target) = bye.operands();
    assert_eq!(Instruction::build(bye.op(), first, second, target), bye);
    assert_eq!(
        Instruction::build(bye.op(), first, Value::Memory { addr: 77 }, Value::Memory { addr: 78 }),
        bye
    );
}
