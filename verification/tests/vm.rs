use bytecode_vm::vm::{virtual_machine, OpCodes};

#[test]
fn sample_program_evaluates_to_two() {
    let program = vec![
        OpCodes::PUSH(3),
        OpCodes::PUSH(4),
        OpCodes::ADD,
        OpCodes::PUSH(5),
        OpCodes::MINUS,
    ];
    assert_eq!(virtual_machine(&program), Some(2));
}

#[test]
fn underflow_defaults_missing_operands_to_zero() {
    let program = vec![OpCodes::ADD];
    assert_eq!(virtual_machine(&program), Some(0));
}

#[test]
fn underflow_with_one_operand_treats_left_as_zero() {
    let program = vec![OpCodes::PUSH(7), OpCodes::MINUS];
    // The right operand 7 is popped first; the missing left operand is zero,
    // and 0 - 7 wraps around the word type.
    assert_eq!(virtual_machine(&program), Some(usize::MAX - 6));
}

#[test]
fn empty_program_yields_no_result() {
    let program = vec![];
    assert_eq!(virtual_machine(&program), None);
}

#[test]
fn subtraction_wraps_below_zero() {
    let program = vec![OpCodes::PUSH(3), OpCodes::PUSH(5), OpCodes::MINUS];
    assert_eq!(virtual_machine(&program), Some(usize::MAX - 1));
}

#[test]
fn addition_wraps_above_the_word_maximum() {
    let program = vec![OpCodes::PUSH(usize::MAX), OpCodes::PUSH(2), OpCodes::ADD];
    assert_eq!(virtual_machine(&program), Some(1));
}

#[test]
fn result_is_the_top_of_the_final_stack() {
    let program = vec![OpCodes::PUSH(10), OpCodes::PUSH(20), OpCodes::PUSH(30)];
    assert_eq!(virtual_machine(&program), Some(30));
}
