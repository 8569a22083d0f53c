//! A simple stack-based virtual machine.
//!
//! The machine evaluates a fixed, already-decoded sequence of operations
//! against a LIFO operand stack and reports the value left on top, if any.
//!
//! Two deliberate policies, kept from the machine's original design:
//! - Binary operations on a stack with fewer than two elements treat each
//!   missing operand as zero instead of failing (permissive underflow).
//! - Arithmetic is unsigned and wraps around the word type, so subtracting a
//!   larger value from a smaller one wraps instead of going negative.

use vstd::prelude::*;

verus! {

/// The machine word the operand stack holds.
pub type Word = usize;

/// The operations the machine executes.
#[derive(Debug, Clone, Copy, PartialEq, Eq)]
#[allow(non_camel_case_types)]
pub enum OpCodes {
    PUSH(Word),
    ADD,
    MINUS,
}

/// Addition that wraps around the word type.
pub open spec fn wrap_add(a: Word, b: Word) -> Word {
    if a + b > Word::MAX {
        (a + b - Word::MAX - 1) as Word
    } else {
        (a + b) as Word
    }
}

/// Subtraction that wraps around the word type.
pub open spec fn wrap_sub(a: Word, b: Word) -> Word {
    if a - b < 0 {
        (a - b + Word::MAX + 1) as Word
    } else {
        (a - b) as Word
    }
}

/// The top of the stack, or zero when the stack is empty (the permissive
/// underflow policy).
pub open spec fn top_or_zero(stack: Seq<Word>) -> Word {
    if stack.len() == 0 {
        0
    } else {
        stack.last()
    }
}

/// The stack with its top removed, or unchanged when already empty.
pub open spec fn pop_one(stack: Seq<Word>) -> Seq<Word> {
    if stack.len() == 0 {
        stack
    } else {
        stack.drop_last()
    }
}

/// One binary operation: pop the right operand first, then the left, and
/// push the wrapping sum or difference.
pub open spec fn binary_step(stack: Seq<Word>, op: OpCodes) -> Seq<Word>
    recommends
        op is ADD || op is MINUS,
{
    let right = top_or_zero(stack);
    let rest = pop_one(stack);
    let left = top_or_zero(rest);
    let rest2 = pop_one(rest);
    if op is ADD {
        rest2.push(wrap_add(left, right))
    } else {
        rest2.push(wrap_sub(left, right))
    }
}

/// The stack after executing one operation.
pub open spec fn stack_after(stack: Seq<Word>, op: OpCodes) -> Seq<Word> {
    match op {
        OpCodes::PUSH(value) => stack.push(value),
        OpCodes::ADD => binary_step(stack, op),
        OpCodes::MINUS => binary_step(stack, op),
    }
}

/// The stack after executing every operation of `program` in order,
/// starting from `stack`.
pub open spec fn run_stack(stack: Seq<Word>, program: Seq<OpCodes>) -> Seq<Word>
    decreases program.len(),
{
    if program.len() == 0 {
        stack
    } else {
        stack_after(run_stack(stack, program.drop_last()), program.last())
    }
}

/// The machine's result on `program`: the top of the final stack, or
/// nothing when the final stack is empty.
pub open spec fn spec_result(program: Seq<OpCodes>) -> Option<Word> {
    let fin = run_stack(Seq::empty(), program);
    if fin.len() == 0 {
        None
    } else {
        Some(fin.last())
    }
}

/// Pops the top of the stack, or yields zero when the stack is empty.
fn pop_or_zero(stack: &mut Vec<Word>) -> (v: Word)
    ensures
        v == top_or_zero(old(stack)@),
        final(stack)@ == pop_one(old(stack)@),
{
    match stack.pop() {
        Some(value) => value,
        None => 0,
    }
}

/// Executes every operation of `program` in order against an initially empty
/// operand stack, and returns the value left on top, or `None` when the
/// final stack is empty.
pub fn virtual_machine(program: &Vec<OpCodes>) -> (result: Option<Word>)
    ensures
        result == spec_result(program@),
{
    let mut stack: Vec<Word> = Vec::new();

    let mut i: usize = 0;
    while i < program.len()
        invariant
            i <= program@.len(),
            stack@ == run_stack(Seq::<Word>::empty(), program@.take(i as int)),
        decreases program@.len() - i,
    {
        match program[i] {
            OpCodes::PUSH(value) => {
                stack.push(value);
            },
            OpCodes::ADD => {
                let right = pop_or_zero(&mut stack);
                let left = pop_or_zero(&mut stack);
                stack.push(left.wrapping_add(right));
            },
            OpCodes::MINUS => {
                let right = pop_or_zero(&mut stack);
                let left = pop_or_zero(&mut stack);
                stack.push(left.wrapping_sub(right));
            },
        }
        proof {
            assert(program@.take(i + 1).drop_last() =~= program@.take(i as int));
            assert(program@.take(i + 1).last() == program@[i as int]);
        }
        i = i + 1;
    }
    proof {
        assert(program@.take(i as int) =~= program@);
    }

    if stack.len() == 0 {
        None
    } else {
        Some(stack[stack.len() - 1])
    }
}

} // verus!
