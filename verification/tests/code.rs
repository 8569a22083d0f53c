use bytecode_vm::code::{
    definitions, lookup, lookup_tag, make, make_with, CodeError, Definition, Op,
};

#[test]
fn test_make() {
    let test_cases = vec![(
        Op::Constant,
        vec![65534],
        vec![Op::Constant as u8, 255, 254],
    )];

    for (op, operands, expected) in test_cases {
        let instructions = make(op, operands).unwrap();

        assert_eq!(
            instructions.len(),
            expected.len(),
            "instruction has wrong len. instructions={instructions:?}, expected={expected:?}"
        );

        for (idx, &b) in expected.iter().enumerate() {
            let instruction = instructions[idx];

            assert_eq!(
                instruction, b,
                "wrong byte at pos {idx}. instruction={instruction:?}, b={b:?}"
            );
        }
    }
}

#[test]
fn be16_round_trips_every_value() {
    for v in 0..=65535u16 {
        let instruction = make(Op::Constant, vec![v as isize]).unwrap();
        assert_eq!(instruction.len(), 3);
        let decoded = (instruction[1] as u16) * 256 + instruction[2] as u16;
        assert_eq!(decoded, v);
    }
}

#[test]
fn lookup_returns_constant_definition() {
    let def = lookup(&Op::Constant).unwrap();
    assert_eq!(def.name, "OpConstant");
    assert_eq!(def.operand_widths, vec![2]);
}

#[test]
fn lookup_of_unregistered_tag_fails() {
    let r = lookup_tag(7);
    assert_eq!(r.unwrap_err(), CodeError::UndefinedOpcode(7));
    let r = lookup_tag(255);
    assert_eq!(r.unwrap_err(), CodeError::UndefinedOpcode(255));
}

#[test]
fn too_few_operands_is_a_count_mismatch() {
    let r = make(Op::Constant, vec![]);
    assert_eq!(
        r.unwrap_err(),
        CodeError::OperandCountMismatch {
            expected: 1,
            given: 0
        }
    );
}

#[test]
fn too_many_operands_is_a_count_mismatch() {
    let r = make(Op::Constant, vec![1, 2]);
    assert_eq!(
        r.unwrap_err(),
        CodeError::OperandCountMismatch {
            expected: 1,
            given: 2
        }
    );
}

#[test]
fn unknown_width_is_unsupported() {
    let def = Definition {
        name: "OpWide",
        operand_widths: vec![3],
    };
    let r = make_with(9, &def, &vec![1]);
    assert_eq!(r.unwrap_err(), CodeError::UnsupportedOperandWidth(3));
}

#[test]
fn encoder_emits_tag_then_big_endian_operands() {
    let def = Definition {
        name: "OpPair",
        operand_widths: vec![2, 2],
    };
    let r = make_with(1, &def, &vec![258, 515]).unwrap();
    assert_eq!(r, vec![1, 1, 2, 2, 3]);
}

#[test]
fn operands_are_truncated_to_sixteen_bits() {
    let instruction = make(Op::Constant, vec![65536 + 5]).unwrap();
    assert_eq!(instruction, vec![0, 0, 5]);

    let instruction = make(Op::Constant, vec![-1]).unwrap();
    assert_eq!(instruction, vec![0, 255, 255]);
}

#[test]
fn registry_construction_is_idempotent() {
    let first = definitions();
    let second = definitions();
    assert_eq!(first.len(), 1);
    assert_eq!(first.len(), second.len());
    for (a, b) in first.iter().zip(second.iter()) {
        assert_eq!(a.0, b.0);
        assert_eq!(a.1.name, b.1.name);
        assert_eq!(a.1.operand_widths, b.1.operand_widths);
    }
    assert_eq!(first[0].0, Op::Constant);
}
