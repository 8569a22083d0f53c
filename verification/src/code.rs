//! Opcode registry and instruction encoder.
//!
//! The registry is an immutable table mapping each opcode to its definition
//! (a display name and the byte width of each operand). The encoder consults
//! the registry and serializes one operation as a tag byte followed by each
//! operand in big-endian order at its declared width.

use vstd::prelude::*;

verus! {

/// Operation kinds. Each opcode is identified by a fixed one-byte tag; new
/// opcodes are added by extending this enum and the registry table together,
/// without disturbing existing tags.
#[derive(Debug, Clone, Copy, Hash, PartialEq, Eq)]
pub enum Op {
    Constant,
}

/// The raw one-byte form of an opcode tag.
pub type OpCode = u8;

/// An encoded instruction: one tag byte, then the operands' bytes.
pub type Instructions = Vec<OpCode>;

/// Immutable metadata for an opcode: a display name and the byte width of
/// each operand, in positional order.
#[derive(Debug)]
pub struct Definition {
    pub name: &'static str,
    pub operand_widths: Vec<usize>,
}

/// Everything that can go wrong in the registry or the encoder.
#[derive(Debug, Clone, Copy, PartialEq, Eq)]
pub enum CodeError {
    /// A lookup was made for a tag that has no entry in the registry table;
    /// carries the unknown tag.
    UndefinedOpcode(u8),
    /// A definition declares an operand width the encoder has no encoding
    /// rule for; carries the offending width.
    UnsupportedOperandWidth(usize),
    /// The number of operands handed to the encoder disagrees with the number
    /// of widths the definition declares.
    OperandCountMismatch { expected: usize, given: usize },
}

/// The fixed tag byte of each opcode.
pub open spec fn spec_tag(op: Op) -> u8 {
    match op {
        Op::Constant => 0,
    }
}

/// The display name of each opcode.
pub open spec fn spec_name(op: Op) -> Seq<char> {
    match op {
        Op::Constant => "OpConstant"@,
    }
}

/// The declared operand widths of each opcode, in bytes.
pub open spec fn spec_widths(op: Op) -> Seq<usize> {
    match op {
        Op::Constant => seq![2usize],
    }
}

/// The opcode registered under a tag, if any.
pub open spec fn spec_op_of_tag(tag: u8) -> Option<Op> {
    if tag == spec_tag(Op::Constant) {
        Some(Op::Constant)
    } else {
        None
    }
}

/// A definition carries exactly the registered metadata of `op`.
pub open spec fn def_matches(d: Definition, op: Op) -> bool {
    &&& d.name@ == spec_name(op)
    &&& d.operand_widths@ == spec_widths(op)
}

/// The registry table, abstractly: one entry per opcode, as
/// (tag, name, operand widths).
pub open spec fn spec_table() -> Seq<(u8, Seq<char>, Seq<usize>)> {
    seq![(0u8, "OpConstant"@, seq![2usize])]
}

/// What a concrete table of entries says, in the terms of `spec_table`.
pub open spec fn table_view(t: Seq<(Op, Definition)>) -> Seq<(u8, Seq<char>, Seq<usize>)> {
    t.map_values(|e: (Op, Definition)| (spec_tag(e.0), e.1.name@, e.1.operand_widths@))
}

/// The fixed tag byte of an opcode.
pub fn tag_of(op: &Op) -> (t: u8)
    ensures
        t == spec_tag(*op),
{
    match op {
        Op::Constant => 0,
    }
}

/// Builds the registry table from its fixed literal list of entries. The
/// construction is pure and deterministic: every call yields the same table,
/// so building it once or many times makes no observable difference.
pub fn definitions() -> (table: Vec<(Op, Definition)>)
    ensures
        table_view(table@) == spec_table(),
{
    let mut widths: Vec<usize> = Vec::new();
    widths.push(2);
    let mut table: Vec<(Op, Definition)> = Vec::new();
    table.push((Op::Constant, Definition { name: "OpConstant", operand_widths: widths }));
    proof {
        assert(table_view(table@) =~= spec_table());
    }
    table
}

/// Looks a raw tag byte up in the registry table. Succeeds exactly on the
/// tags that are registered; on any other tag it fails with
/// `UndefinedOpcode` carrying that tag.
pub fn lookup_tag(tag: u8) -> (r: Result<Definition, CodeError>)
    ensures
        spec_op_of_tag(tag) matches Some(op) ==> (r matches Ok(d) && def_matches(d, op)),
        spec_op_of_tag(tag) is None ==> (r matches Err(e) && e == CodeError::UndefinedOpcode(tag)),
{
    let mut table = definitions();
    let mut i: usize = 0;
    while i < table.len()
        invariant
            i <= table@.len(),
            table_view(table@) == spec_table(),
            forall|j: int| 0 <= j < i ==> spec_tag(#[trigger] table@[j].0) != tag,
        decreases table@.len() - i,
    {
        if tag_of(&table[i].0) == tag {
            proof {
                assert(table@.len() == table_view(table@).len());
                assert(table_view(table@)[i as int] == spec_table()[i as int]);
                assert(spec_op_of_tag(tag) == Some(table@[i as int].0));
                assert(def_matches(table@[i as int].1, table@[i as int].0));
            }
            let entry = table.remove(i);
            return Ok(entry.1);
        }
        i = i + 1;
    }
    proof {
        if spec_op_of_tag(tag) is Some {
            assert(table_view(table@)[0] == spec_table()[0]);
        }
    }
    Err(CodeError::UndefinedOpcode(tag))
}

/// Resolves an opcode's definition through the registry. Every opcode of
/// `Op` is registered, so the lookup always succeeds.
pub fn lookup(op: &Op) -> (r: Result<Definition, CodeError>)
    ensures
        r matches Ok(d) && def_matches(d, *op),
{
    proof {
        assert(spec_op_of_tag(spec_tag(*op)) == Some(*op));
    }
    lookup_tag(tag_of(op))
}

/// An operand value narrowed to 16 bits: its residue modulo 2^16, which is
/// what discarding all but the low 16 bits of its two's-complement form
/// leaves.
pub open spec fn low16(x: int) -> u16 {
    (x % 0x10000) as u16
}

/// The two big-endian bytes of a 16-bit value: most significant byte first.
pub open spec fn be_bytes16(v: u16) -> Seq<u8> {
    seq![(v / 256) as u8, (v % 256) as u8]
}

/// The 16-bit value a big-endian byte pair denotes.
pub open spec fn be16_value(hi: u8, lo: u8) -> u16 {
    (hi * 256 + lo) as u16
}

/// Each operand narrowed to 16 bits and laid out big-endian, in positional
/// order. This is the operand section of an instruction whose declared
/// widths are all two bytes.
pub open spec fn be16_concat(operands: Seq<isize>) -> Seq<u8>
    decreases operands.len(),
{
    if operands.len() == 0 {
        Seq::empty()
    } else {
        be16_concat(operands.drop_last()) + be_bytes16(low16(operands.last() as int))
    }
}

/// Every declared width is one the encoder has an encoding rule for
/// (currently: two bytes only).
pub open spec fn all_widths_supported(widths: Seq<usize>) -> bool {
    forall|i: int| 0 <= i < widths.len() ==> #[trigger] widths[i] == 2
}

/// The position of the first declared width the encoder cannot encode.
pub open spec fn first_unsupported(widths: Seq<usize>) -> int
    decreases widths.len(),
{
    if widths.len() == 0 {
        0
    } else if widths[0] != 2 {
        0
    } else {
        1 + first_unsupported(widths.drop_first())
    }
}

proof fn lemma_first_unsupported(widths: Seq<usize>, i: int)
    requires
        0 <= i < widths.len(),
        forall|j: int| 0 <= j < i ==> #[trigger] widths[j] == 2,
        widths[i] != 2,
    ensures
        first_unsupported(widths) == i,
    decreases i,
{
    if i == 0 {
    } else {
        assert(widths.drop_first()[i - 1] == widths[i]);
        assert(forall|j: int| 0 <= j < i - 1 ==> #[trigger] widths.drop_first()[j] == widths[j + 1]);
        lemma_first_unsupported(widths.drop_first(), i - 1);
    }
}

/// Law: encoding a 16-bit operand round-trips losslessly through its
/// big-endian byte pair — reading the two emitted bytes back as a
/// big-endian integer recovers the value exactly, for every `v`.
pub proof fn lemma_be16_round_trip(v: u16)
    ensures
        be_bytes16(v).len() == 2,
        be16_value(be_bytes16(v)[0], be_bytes16(v)[1]) == v,
{
}

/// Law: for every operand value that already fits in 16 bits, the operand
/// section the encoder emits for it is a byte pair that decodes back to the
/// value exactly — encoding is lossless over `[0, 65535]`.
pub proof fn lemma_encoded_operand_recovers_value(v: u16)
    ensures
        ({
            let bytes = be16_concat(seq![v as isize]);
            bytes.len() == 2 && be16_value(bytes[0], bytes[1]) == v
        }),
{
    assert(seq![v as isize].drop_last() =~= Seq::<isize>::empty());
    assert(be16_concat(Seq::<isize>::empty()) =~= Seq::<u8>::empty());
    lemma_be16_round_trip(low16(v as isize as int));
}

/// Narrows an operand to a 16-bit unsigned integer, keeping only the low
/// 16 bits of its two's-complement form.
fn narrow_u16(x: isize) -> (v: u16)
    ensures
        v == low16(x as int),
{
    if x >= 0 {
        let wide: usize = x as usize;
        (wide % 65536) as u16
    } else {
        // For x < 0 the low 16 bits are the bitwise complement of those of
        // -x - 1, which is representable even when x is the least value.
        let flipped: usize = (-(x + 1)) as usize;
        proof {
            vstd::arithmetic::div_mod::lemma_fundamental_div_mod(x as int, 65536);
            vstd::arithmetic::div_mod::lemma_fundamental_div_mod(-(x as int) - 1, 65536);
        }
        65535 - ((flipped % 65536) as u16)
    }
}

/// Serializes one operation against an explicit definition: the tag byte
/// first, then each operand at the width declared for its position, in
/// big-endian order. Succeeds exactly when the operand count matches the
/// definition's width list and every declared width is supported.
pub fn make_with(tag: u8, def: &Definition, operands: &Vec<isize>) -> (r: Result<
    Instructions,
    CodeError,
>)
    ensures
        operands@.len() == def.operand_widths@.len() && all_widths_supported(def.operand_widths@)
            ==> (r matches Ok(ins) && ins@ == seq![tag] + be16_concat(operands@)),
        operands@.len() != def.operand_widths@.len() ==> (r matches Err(e) && e
            == CodeError::OperandCountMismatch {
            expected: def.operand_widths@.len() as usize,
            given: operands@.len() as usize,
        }),
        operands@.len() == def.operand_widths@.len() && !all_widths_supported(def.operand_widths@)
            ==> (r matches Err(e) && e == CodeError::UnsupportedOperandWidth(
            def.operand_widths@[first_unsupported(def.operand_widths@)],
        )),
{
    if operands.len() != def.operand_widths.len() {
        return Err(
            CodeError::OperandCountMismatch {
                expected: def.operand_widths.len(),
                given: operands.len(),
            },
        );
    }

    let mut instruction: Vec<u8> = Vec::new();
    instruction.push(tag);

    let mut i: usize = 0;
    while i < operands.len()
        invariant
            i <= operands@.len(),
            operands@.len() == def.operand_widths@.len(),
            forall|j: int| 0 <= j < i ==> #[trigger] def.operand_widths@[j] == 2,
            instruction@ == seq![tag] + be16_concat(operands@.take(i as int)),
        decreases operands@.len() - i,
    {
        let width = def.operand_widths[i];
        match width {
            2 => {
                let value = narrow_u16(operands[i]);
                instruction.push((value / 256) as u8);
                instruction.push((value % 256) as u8);
            },
            _ => {
                proof {
                    lemma_first_unsupported(def.operand_widths@, i as int);
                }
                return Err(CodeError::UnsupportedOperandWidth(width));
            },
        }
        proof {
            assert(operands@.take(i + 1).drop_last() =~= operands@.take(i as int));
            assert(operands@.take(i + 1).last() == operands@[i as int]);
            assert(instruction@ =~= seq![tag] + be16_concat(operands@.take(i + 1)));
        }
        i = i + 1;
    }
    proof {
        assert(operands@.take(i as int) =~= operands@);
    }
    Ok(instruction)
}

/// Serializes one operation into its byte-exact instruction form: the
/// opcode's tag byte, then each operand big-endian at its declared width.
/// Succeeds exactly when the operand count matches the opcode's definition;
/// on a mismatch it fails with `OperandCountMismatch` instead of reading
/// out of bounds or dropping operands.
pub fn make(op: Op, operands: Vec<isize>) -> (r: Result<Instructions, CodeError>)
    ensures
        operands@.len() == spec_widths(op).len() ==> (r matches Ok(ins) && ins@ == seq![
            spec_tag(op),
        ] + be16_concat(operands@)),
        operands@.len() != spec_widths(op).len() ==> (r matches Err(e) && e
            == CodeError::OperandCountMismatch {
            expected: spec_widths(op).len() as usize,
            given: operands@.len() as usize,
        }),
{
    let def = match lookup(&op) {
        Ok(d) => d,
        Err(e) => return Err(e),
    };
    proof {
        assert(all_widths_supported(spec_widths(op)));
    }
    make_with(tag_of(&op), &def, &operands)
}

/// A tag for which the table holds an entry.
pub open spec fn table_contains_tag(t: Seq<(Op, Definition)>, tag: u8) -> bool {
    exists|i: int| 0 <= i < t.len() && spec_tag(#[trigger] t[i].0) == tag
}

/// Law: the registry's one-time construction is idempotent — tables built
/// by any two runs of `definitions` say exactly the same thing, each with
/// one entry per opcode and no duplicates, so repeated construction yields
/// a single consistent table.
pub proof fn lemma_definitions_idempotent(t1: Seq<(Op, Definition)>, t2: Seq<(Op, Definition)>)
    requires
        table_view(t1) == spec_table(),
        table_view(t2) == spec_table(),
    ensures
        table_view(t1) == table_view(t2),
        t1.len() == t2.len(),
        forall|i: int, j: int|
            0 <= i < t1.len() && 0 <= j < t1.len() && i != j ==> spec_tag(#[trigger] t1[i].0)
                != spec_tag(#[trigger] t1[j].0),
        forall|op: Op| #[trigger] table_contains_tag(t1, spec_tag(op)),
{
    assert(t1.len() == table_view(t1).len());
    assert(t2.len() == table_view(t2).len());
    assert(table_view(t1)[0] == spec_table()[0]);
    assert(table_contains_tag(t1, 0));
    assert forall|op: Op| #[trigger] table_contains_tag(t1, spec_tag(op)) by {
        assert(spec_tag(op) == 0);
    }
}

} // verus!
