//! Encoding parsed statements as machine code, in two passes: the first
//! gives every label an address, the second emits the bytes.
use vstd::prelude::*;

use crate::labels::LabelTable;
use crate::parser::types::{Instruction, Operand, SpecOperand, SpecStatement, Statement};

verus! {

broadcast use vstd::string::group_string_axioms;

/// The message for two operands that no instruction form accepts.
pub open spec fn invalid_combination() -> Seq<char> {
    "Invalid operand combination"@
}

/// The message for a jump to a label that was never declared.
pub open spec fn label_not_found() -> Seq<char> {
    "Label not found"@
}

/// The message for an operand that a one-operand instruction does not accept.
pub open spec fn invalid_single_operand() -> Seq<char> {
    "Operand not valid for single instruction"@
}

/// The message for a statement that has no encoding.
pub open spec fn invalid_statement() -> Seq<char> {
    "Invalid statement"@
}

/// The operation code of an instruction.
pub open spec fn opcode(i: Instruction) -> u8 {
    match i {
        Instruction::Add => 0x0,
        Instruction::Sub => 0x1,
        Instruction::Cmp => 0x2,
        Instruction::Inc => 0x3,
        Instruction::Dec => 0x4,
        Instruction::And => 0x5,
        Instruction::Or => 0x6,
        Instruction::Not => 0x7,
        Instruction::Shr => 0x8,
        Instruction::Shl => 0x9,
        Instruction::Jmp => 0xA0,
        Instruction::Jz => 0xA1,
        Instruction::Js => 0xA2,
        Instruction::Jc => 0xA3,
        Instruction::Jo => 0xA4,
        Instruction::Jp => 0xA5,
        Instruction::Mov => 0xB,
        Instruction::Nop => 0xFF,
    }
}

/// Instructions that take two operands.
pub open spec fn takes_two_operands(i: Instruction) -> bool {
    i is Add || i is Sub || i is Cmp || i is And || i is Or || i is Mov
}

/// Instructions that jump to a label.
pub open spec fn is_jump(i: Instruction) -> bool {
    i is Jmp || i is Jz || i is Js || i is Jc || i is Jo || i is Jp
}

/// Instructions that take one operand.
pub open spec fn takes_one_operand(i: Instruction) -> bool {
    i is Inc || i is Dec || i is Not || i is Shr || i is Shl
}

/// The addressing mode of a pair of operands, and the byte that follows
/// the instruction, if the pair is accepted.
pub open spec fn operand_pair_encoding(first: SpecOperand, second: SpecOperand) -> Option<
    (u8, Option<u8>),
> {
    match (first, second) {
        (SpecOperand::A, SpecOperand::B) => Some((0x0, None)),
        (SpecOperand::B, SpecOperand::A) => Some((0x1, None)),
        (SpecOperand::A, SpecOperand::I) => Some((0x2, None)),
        (SpecOperand::I, SpecOperand::A) => Some((0x3, None)),
        (SpecOperand::A, SpecOperand::MemI) => Some((0x4, None)),
        (SpecOperand::MemI, SpecOperand::A) => Some((0x5, None)),
        (SpecOperand::A, SpecOperand::Const(v)) => Some((0x6, Some(v))),
        (SpecOperand::B, SpecOperand::Const(v)) => Some((0x7, Some(v))),
        (SpecOperand::I, SpecOperand::Const(v)) => Some((0x8, Some(v))),
        (SpecOperand::MemI, SpecOperand::Const(v)) => Some((0x9, Some(v))),
        (SpecOperand::A, SpecOperand::MemConst(v)) => Some((0xA, Some(v))),
        (SpecOperand::B, SpecOperand::MemConst(v)) => Some((0xB, Some(v))),
        (SpecOperand::MemConst(v), SpecOperand::A) => Some((0xC, Some(v))),
        (SpecOperand::MemConst(v), SpecOperand::B) => Some((0xD, Some(v))),
        _ => None,
    }
}

/// The addressing mode of the operand of a one-operand instruction.
pub open spec fn single_operand_encoding(op: SpecOperand) -> Option<u8> {
    match op {
        SpecOperand::A => Some(0x0),
        SpecOperand::B => Some(0x1),
        SpecOperand::I => Some(0x2),
        SpecOperand::MemI => Some(0x4),
        _ => None,
    }
}

/// The name of a label operand.
pub open spec fn label_operand(op: Option<SpecOperand>) -> Option<Seq<char>> {
    match op {
        Some(SpecOperand::Label(name)) => Some(name),
        _ => None,
    }
}

/// What assembling one statement appends to the output, and the message
/// of the error it ends with, if any.
pub open spec fn encode_statement(st: SpecStatement, labels: Map<Seq<char>, u8>) -> (
    Seq<u8>,
    Option<Seq<char>>,
) {
    match st {
        SpecStatement::Label(_) => (seq![], None),
        SpecStatement::Operation(i, first, second) => if takes_two_operands(i) && first is Some
            && second is Some {
            match operand_pair_encoding(first->0, second->0) {
                Some((mode, None)) => (seq![(opcode(i) * 16 + mode) as u8], None),
                Some((mode, Some(v))) => (seq![(opcode(i) * 16 + mode) as u8, v], None),
                None => (seq![], Some(invalid_combination())),
            }
        } else if is_jump(i) && label_operand(first) is Some && second is None {
            let name = label_operand(first)->0;
            if labels.contains_key(name) {
                (seq![opcode(i), labels[name]], None)
            } else {
                (seq![opcode(i)], Some(label_not_found()))
            }
        } else if takes_one_operand(i) && first is Some && second is None {
            match single_operand_encoding(first->0) {
                Some(mode) => (seq![(opcode(i) * 16 + mode) as u8], None),
                None => (seq![], Some(invalid_single_operand())),
            }
        } else if i is Nop && first is None && second is None {
            (seq![opcode(i)], None)
        } else {
            (seq![], Some(invalid_statement()))
        },
    }
}

/// What assembling the statements from the `k`-th on appends to the
/// output: each statement's bytes in turn, up to and including the first
/// one that fails, and that one's message.
pub open spec fn encode_from(
    statements: Seq<SpecStatement>,
    k: int,
    labels: Map<Seq<char>, u8>,
) -> (Seq<u8>, Option<Seq<char>>)
    decreases statements.len() - k,
{
    if 0 <= k < statements.len() {
        let (bytes, error) = encode_statement(statements[k], labels);
        if error is Some {
            (bytes, error)
        } else {
            let (rest, rest_error) = encode_from(statements, k + 1, labels);
            (bytes + rest, rest_error)
        }
    } else {
        (seq![], None)
    }
}

/// What assembling all the statements appends to the output.
pub open spec fn encode_program(statements: Seq<SpecStatement>, labels: Map<Seq<char>, u8>) -> (
    Seq<u8>,
    Option<Seq<char>>,
) {
    encode_from(statements, 0, labels)
}

/// An operand that brings a byte of its own.
pub open spec fn carries_byte(op: Option<SpecOperand>) -> bool {
    op matches Some(o) && (o is Const || o is MemConst)
}

/// The room the first pass reserves for a statement.
pub open spec fn reserved_size(st: SpecStatement) -> int {
    match st {
        SpecStatement::Operation(i, first, second) => if carries_byte(second) || carries_byte(
            first,
        ) || (i is Jmp && label_operand(first) is Some) {
            2
        } else {
            1
        },
        SpecStatement::Label(_) => 1,
    }
}

/// The address the first pass reaches after the first `n` statements.
pub open spec fn address_after(statements: Seq<SpecStatement>, n: int) -> int
    decreases n,
{
    if 0 < n <= statements.len() {
        address_after(statements, n - 1) + reserved_size(statements[n - 1])
    } else {
        0
    }
}

/// The first pass keeps its addresses in one byte.
pub open spec fn fits_in_address_space(statements: Seq<SpecStatement>) -> bool {
    address_after(statements, statements.len() as int) <= 255
}

/// The table after the first pass has seen the first `n` statements: each
/// label declared among them maps to its address, the last declaration of
/// a name winning.
pub open spec fn labels_after(
    statements: Seq<SpecStatement>,
    n: int,
    initial: Map<Seq<char>, u8>,
) -> Map<Seq<char>, u8>
    decreases n,
{
    if 0 < n <= statements.len() {
        let table = labels_after(statements, n - 1, initial);
        match statements[n - 1] {
            SpecStatement::Label(name) => table.insert(name, address_after(statements, n - 1) as u8),
            _ => table,
        }
    } else {
        initial
    }
}

/// The statements of a program, by value.
pub open spec fn program_view(statements: &Vec<Statement>) -> Seq<SpecStatement> {
    statements.deep_view()
}

/// The operation code of an instruction.
pub fn assemble_instruction(instruction: &Instruction) -> (code: u8)
    ensures
        code == opcode(*instruction),
{
    match instruction {
        Instruction::Add => 0x0,
        Instruction::Sub => 0x1,
        Instruction::Cmp => 0x2,
        Instruction::Inc => 0x3,
        Instruction::Dec => 0x4,
        Instruction::And => 0x5,
        Instruction::Or => 0x6,
        Instruction::Not => 0x7,
        Instruction::Shr => 0x8,
        Instruction::Shl => 0x9,
        Instruction::Jmp => 0xA0,
        Instruction::Jz => 0xA1,
        Instruction::Js => 0xA2,
        Instruction::Jc => 0xA3,
        Instruction::Jo => 0xA4,
        Instruction::Jp => 0xA5,
        Instruction::Mov => 0xB,
        Instruction::Nop => 0xFF,
    }
}

/// The addressing mode of two operands and the byte that follows the
/// instruction, or an error where no instruction form takes them.
pub fn assemble_double_operands(first: &Operand, second: &Operand) -> (r: Result<
    (u8, Option<u8>),
    &'static str,
>)
    ensures
        match operand_pair_encoding(first@, second@) {
            Some(enc) => r == Ok::<(u8, Option<u8>), &'static str>(enc),
            None => r matches Err(msg) && msg@ == invalid_combination(),
        },
{
    match (first, second) {
        (Operand::A, Operand::B) => Ok((0x0, None)),
        (Operand::B, Operand::A) => Ok((0x1, None)),
        (Operand::A, Operand::I) => Ok((0x2, None)),
        (Operand::I, Operand::A) => Ok((0x3, None)),
        (Operand::A, Operand::MemI) => Ok((0x4, None)),
        (Operand::MemI, Operand::A) => Ok((0x5, None)),
        (Operand::A, Operand::Const(value)) => Ok((0x6, Some(*value))),
        (Operand::B, Operand::Const(value)) => Ok((0x7, Some(*value))),
        (Operand::I, Operand::Const(value)) => Ok((0x8, Some(*value))),
        (Operand::MemI, Operand::Const(value)) => Ok((0x9, Some(*value))),
        (Operand::A, Operand::MemConst(value)) => Ok((0xA, Some(*value))),
        (Operand::B, Operand::MemConst(value)) => Ok((0xB, Some(*value))),
        (Operand::MemConst(value), Operand::A) => Ok((0xC, Some(*value))),
        (Operand::MemConst(value), Operand::B) => Ok((0xD, Some(*value))),
        _ => Err("Invalid operand combination"),
    }
}

/// Whether an instruction takes two operands.
fn is_two_operand_instruction(i: &Instruction) -> (b: bool)
    ensures
        b == takes_two_operands(*i),
{
    match i {
        Instruction::Add | Instruction::Sub | Instruction::Cmp | Instruction::And
        | Instruction::Or | Instruction::Mov => true,
        _ => false,
    }
}

/// Whether an instruction jumps to a label.
fn is_jump_instruction(i: &Instruction) -> (b: bool)
    ensures
        b == is_jump(*i),
{
    match i {
        Instruction::Jmp | Instruction::Jz | Instruction::Js | Instruction::Jc | Instruction::Jo
        | Instruction::Jp => true,
        _ => false,
    }
}

/// Whether an instruction takes one operand.
fn is_one_operand_instruction(i: &Instruction) -> (b: bool)
    ensures
        b == takes_one_operand(*i),
{
    match i {
        Instruction::Inc | Instruction::Dec | Instruction::Not | Instruction::Shr
        | Instruction::Shl => true,
        _ => false,
    }
}

/// The first byte of an instruction with operands: its operation code in
/// the high half and the addressing mode in the low half.
fn combine(code: u8, mode: u8) -> (b: u8)
    requires
        code < 16,
        mode < 16,
    ensures
        b == (code * 16 + mode) as u8,
{
    let mut byte = code;
    assert((byte << 4u8) == byte * 16) by (bit_vector)
        requires
            byte < 16,
    ;
    byte = byte << 4u8;
    byte = byte + mode;
    byte
}

/// Appends the encoding of `statement` to `bytes`. A jump to an unknown
/// label fails after its operation code has been appended; every other
/// failure appends nothing.
pub fn assemble_statement(statement: &Statement, labels: &LabelTable, bytes: &mut Vec<u8>) -> (r:
    Result<(), &'static str>)
    requires
        labels.wf(),
    ensures
        final(bytes)@ == old(bytes)@ + encode_statement(statement@, labels@).0,
        match r {
            Ok(()) => encode_statement(statement@, labels@).1 is None,
            Err(msg) => encode_statement(statement@, labels@).1 == Some(msg@),
        },
{
    let ghost before = bytes@;
    match statement {
        Statement::Label(_) => {
            assert(bytes@ == before + Seq::<u8>::empty());
            Ok(())
        },
        Statement::Operation(instruction, first, second) => {
            if is_two_operand_instruction(instruction) && first.is_some() && second.is_some() {
                let a = first.as_ref().unwrap();
                let b = second.as_ref().unwrap();
                let code = assemble_instruction(instruction);
                match assemble_double_operands(a, b) {
                    Ok((addressing, extra)) => {
                        bytes.push(combine(code, addressing));
                        match extra {
                            Some(value) => {
                                bytes.push(value);
                            },
                            None => {},
                        }
                        Ok(())
                    },
                    Err(msg) => {
                        assert(bytes@ == before + Seq::<u8>::empty());
                        Err(msg)
                    },
                }
            } else if is_jump_instruction(instruction) && second.is_none() {
                match first {
                    Some(Operand::Label(label)) => {
                        bytes.push(assemble_instruction(instruction));
                        match labels.get(label) {
                            Some(address) => {
                                bytes.push(address);
                                Ok(())
                            },
                            None => Err("Label not found"),
                        }
                    },
                    _ => {
                        assert(bytes@ == before + Seq::<u8>::empty());
                        Err("Invalid statement")
                    },
                }
            } else if is_one_operand_instruction(instruction) && first.is_some() && second.is_none() {
                let code = assemble_instruction(instruction);
                let addressing: u8 = match first.as_ref().unwrap() {
                    Operand::A => 0x0,
                    Operand::B => 0x1,
                    Operand::I => 0x2,
                    Operand::MemI => 0x4,
                    _ => {
                        assert(bytes@ == before + Seq::<u8>::empty());
                        return Err("Operand not valid for single instruction");
                    },
                };
                bytes.push(combine(code, addressing));
                Ok(())
            } else if matches!(instruction, Instruction::Nop) && first.is_none() && second.is_none() {
                bytes.push(assemble_instruction(instruction));
                Ok(())
            } else {
                assert(bytes@ == before + Seq::<u8>::empty());
                Err("Invalid statement")
            }
        },
    }
}

/// The address only grows from one statement to the next.
pub proof fn lemma_address_after_monotonic(statements: Seq<SpecStatement>, m: int, n: int)
    requires
        0 <= m <= n <= statements.len(),
    ensures
        address_after(statements, m) <= address_after(statements, n),
    decreases n,
{
    if m < n {
        lemma_address_after_monotonic(statements, m, n - 1);
    }
}

/// A statement whose bytes take exactly the room the first pass reserves
/// for it: neither a label declaration nor a conditional jump.
pub open spec fn sized_as_reserved(st: SpecStatement) -> bool {
    match st {
        SpecStatement::Label(_) => false,
        SpecStatement::Operation(i, _, _) => !is_jump(i) || i is Jmp,
    }
}

/// No declaration of `name` among the statements from `from` to before `to`.
pub open spec fn not_declared_between(
    statements: Seq<SpecStatement>,
    name: Seq<char>,
    from: int,
    to: int,
) -> bool {
    forall|m: int| from <= m < to ==> #[trigger] statements[m] != SpecStatement::Label(name)
}

/// A statement that assembles without error and is neither a label
/// declaration nor a conditional jump emits as many bytes as the first pass
/// reserves for it.
pub proof fn lemma_encoding_fills_reserved_room(st: SpecStatement, labels: Map<Seq<char>, u8>)
    requires
        sized_as_reserved(st),
        encode_statement(st, labels).1 is None,
    ensures
        encode_statement(st, labels).0.len() == reserved_size(st),
{
}

/// The room the first pass reserves for a statement that assembles is the
/// number of bytes it emits, except that a label declaration reserves one
/// byte and emits none, and a conditional jump reserves one byte and emits
/// two. An operation with a constant operand always reserves two bytes.
pub proof fn law_reserved_room(st: SpecStatement, labels: Map<Seq<char>, u8>)
    ensures
        encode_statement(st, labels).1 is None ==> reserved_size(st) == encode_statement(
            st,
            labels,
        ).0.len() + (if st is Label {
            1int
        } else {
            0int
        }) - (if st matches SpecStatement::Operation(i, _, _) && (i is Jz || i is Js || i is Jc
            || i is Jo || i is Jp) {
            1int
        } else {
            0int
        }),
        st matches SpecStatement::Operation(_, a, b) && (a matches Some(SpecOperand::Const(_))
            || a matches Some(SpecOperand::MemConst(_)) || b matches Some(SpecOperand::Const(_))
            || b matches Some(SpecOperand::MemConst(_))) ==> reserved_size(st) == 2,
{
}

/// The addresses of the first statements do not depend on the ones after.
pub proof fn lemma_address_after_prefix(statements: Seq<SpecStatement>, n: int, m: int)
    requires
        0 <= m <= n <= statements.len(),
    ensures
        address_after(statements.take(n), m) == address_after(statements, m),
    decreases m,
{
    if m > 0 {
        lemma_address_after_prefix(statements, n, m - 1);
        assert(statements.take(n)[m - 1] == statements[m - 1]);
    }
}

/// Statements that all take their reserved room, assembled from the `k`-th
/// on without error, emit the room reserved from the `k`-th on.
pub proof fn lemma_encoded_length(statements: Seq<SpecStatement>, k: int, labels: Map<Seq<char>, u8>)
    requires
        0 <= k <= statements.len(),
        forall|m: int| 0 <= m < statements.len() ==> sized_as_reserved(#[trigger] statements[m]),
        encode_from(statements, k, labels).1 is None,
    ensures
        encode_from(statements, k, labels).0.len() == address_after(
            statements,
            statements.len() as int,
        ) - address_after(statements, k),
    decreases statements.len() - k,
{
    if k < statements.len() {
        assert(sized_as_reserved(statements[k]));
        lemma_encoded_length(statements, k + 1, labels);
        lemma_encoding_fills_reserved_room(statements[k], labels);
        lemma_address_after_step(statements, k + 1, statements.len() as int);
    }
}

/// The address after `n` statements is the one after `k` plus the room of
/// the `k`-th.
proof fn lemma_address_after_step(statements: Seq<SpecStatement>, k: int, n: int)
    requires
        0 < k <= n <= statements.len(),
    ensures
        address_after(statements, k) == address_after(statements, k - 1) + reserved_size(
            statements[k - 1],
        ),
{
}

/// A label gets the address the first pass reached at its last
/// declaration among the first `k` statements.
pub proof fn lemma_label_address(
    statements: Seq<SpecStatement>,
    n: int,
    k: int,
    initial: Map<Seq<char>, u8>,
)
    requires
        0 <= n < k <= statements.len(),
        statements[n] is Label,
        not_declared_between(statements, statements[n]->Label_0, n + 1, k),
    ensures
        labels_after(statements, k, initial).contains_key(statements[n]->Label_0),
        labels_after(statements, k, initial)[statements[n]->Label_0] == address_after(
            statements,
            n,
        ) as u8,
    decreases k,
{
    if k > n + 1 {
        lemma_label_address(statements, n, k - 1, initial);
        assert(statements[k - 1] != SpecStatement::Label(statements[n]->Label_0));
    }
}

/// The first pass gives a label the offset at which the second pass emits
/// the code that follows its declaration, when the label is declared once
/// and no label declaration or conditional jump comes before it, and the
/// code before it assembles.
pub proof fn lemma_label_marks_code_offset(
    statements: Seq<SpecStatement>,
    n: int,
    labels: Map<Seq<char>, u8>,
)
    requires
        0 <= n < statements.len(),
        fits_in_address_space(statements),
        statements[n] is Label,
        not_declared_between(statements, statements[n]->Label_0, n + 1, statements.len() as int),
        forall|m: int| 0 <= m < n ==> sized_as_reserved(#[trigger] statements[m]),
        encode_program(statements.take(n), labels).1 is None,
    ensures
        labels_after(statements, statements.len() as int, Map::empty())[statements[n]->Label_0]
            == encode_program(statements.take(n), labels).0.len(),
{
    let prefix = statements.take(n);
    assert forall|m: int| 0 <= m < prefix.len() implies sized_as_reserved(#[trigger] prefix[m]) by {
        assert(prefix[m] == statements[m]);
    }
    lemma_encoded_length(prefix, 0, labels);
    lemma_address_after_prefix(statements, n, n);
    lemma_label_address(statements, n, statements.len() as int, Map::empty());
    lemma_address_after_monotonic(statements, n, statements.len() as int);
}

/// The addressing mode of an accepted operand pair.
pub open spec fn pair_mode(a: SpecOperand, b: SpecOperand) -> u8 {
    match operand_pair_encoding(a, b) {
        Some((m, _)) => m,
        None => 0,
    }
}

/// An operand with its constant or name left out.
pub open spec fn shape(op: SpecOperand) -> SpecOperand {
    match op {
        SpecOperand::Const(_) => SpecOperand::Const(0),
        SpecOperand::MemConst(_) => SpecOperand::MemConst(0),
        SpecOperand::Label(_) => SpecOperand::Label(Seq::empty()),
        other => other,
    }
}

/// The constant an operand brings, if any.
pub open spec fn constant_of(op: SpecOperand) -> Option<u8> {
    match op {
        SpecOperand::Const(v) => Some(v),
        SpecOperand::MemConst(v) => Some(v),
        _ => None,
    }
}

/// The place of a register or of the cell `[I]` in the order A, B, I, `[I]`;
/// -1 for other operands.
pub open spec fn register_rank(op: SpecOperand) -> int {
    match op {
        SpecOperand::A => 0,
        SpecOperand::B => 1,
        SpecOperand::I => 2,
        SpecOperand::MemI => 3,
        _ => -1,
    }
}

/// How the addressing mode of an operand pair follows from its operands.
/// Between registers and `[I]`, a pair is accepted when exactly one side is
/// A; the other side picks the pair of modes (B: 0 and 1, I: 2 and 3,
/// `[I]`: 4 and 5), and the even one is the one that writes into A. A
/// constant source gives modes 6 to 9 by the destination's place in A, B,
/// I, `[I]`; a cell source gives A and B for A and B; a cell destination
/// gives C and D for sources A and B. The byte after the instruction is the
/// pair's constant.
pub proof fn law_operand_pairs(a: SpecOperand, b: SpecOperand)
    ensures
        operand_pair_encoding(a, b) matches Some((m, e)) ==> m < 16 && e == (if constant_of(
            a,
        ) is Some {
            constant_of(a)
        } else {
            constant_of(b)
        }),
        register_rank(a) >= 0 && register_rank(b) >= 0 ==> (operand_pair_encoding(a, b) is Some
            <==> (a is A) != (b is A)),
        register_rank(a) >= 0 && register_rank(b) >= 0 && operand_pair_encoding(a, b) is Some
            ==> pair_mode(a, b) == 2 * (register_rank(
            if a is A {
                b
            } else {
                a
            },
        ) - 1) + (if a is A {
            0int
        } else {
            1int
        }),
        b is Const && register_rank(a) >= 0 ==> operand_pair_encoding(a, b) is Some
            && pair_mode(a, b) == 6 + register_rank(a),
        b is MemConst ==> (operand_pair_encoding(a, b) is Some <==> (a is A || a is B)),
        b is MemConst && (a is A || a is B) ==> pair_mode(a, b) == 0xA
            + register_rank(a),
        a is MemConst ==> (operand_pair_encoding(a, b) is Some <==> (b is A || b is B)),
        a is MemConst && (b is A || b is B) ==> pair_mode(a, b) == 0xC
            + register_rank(b),
        a is Const || a is Label || b is Label ==> operand_pair_encoding(a, b) is None,
{
}

/// Different operand pairs get different modes: the mode tells which
/// operands an instruction reads and writes.
pub proof fn law_operand_pair_modes_differ(a: SpecOperand, b: SpecOperand, c: SpecOperand, d: SpecOperand)
    requires
        operand_pair_encoding(a, b) is Some,
        operand_pair_encoding(c, d) is Some,
        pair_mode(a, b) == pair_mode(c, d),
    ensures
        shape(a) == shape(c),
        shape(b) == shape(d),
{
}

/// Different instructions have different operation codes; those that take
/// operands fit in the high half of a byte, the jumps are 0xA0 to 0xA5 and
/// `nop` is 0xFF.
pub proof fn law_operation_codes(i: Instruction, j: Instruction)
    ensures
        opcode(i) == opcode(j) ==> i == j,
        i is Mov || i is Or || i is And || i is Cmp || i is Sub || i is Add || i is Inc || i is Dec
            || i is Not || i is Shr || i is Shl ==> opcode(i) < 16,
        i is Jmp || i is Jz || i is Js || i is Jc || i is Jo || i is Jp ==> 0xA0 <= opcode(i)
            <= 0xA5,
        i is Nop ==> opcode(i) == 0xFF,
{
}

/// `add`, `sub`, `cmp`, `and`, `or` and `mov` with two operands: an
/// accepted pair gives the operation code in the high half and the mode in
/// the low half of one byte, then the pair's constant if it has one; any
/// other pair is an invalid combination and emits nothing. With an operand
/// missing the statement is invalid.
pub proof fn law_two_operand_statements(
    i: Instruction,
    a: SpecOperand,
    b: SpecOperand,
    labels: Map<Seq<char>, u8>,
)
    requires
        i is Mov || i is Or || i is And || i is Cmp || i is Sub || i is Add,
    ensures
        match operand_pair_encoding(a, b) {
            Some((m, e)) => encode_statement(SpecStatement::Operation(i, Some(a), Some(b)), labels)
                == (seq![(opcode(i) * 16 + m) as u8] + match e {
                Some(v) => seq![v],
                None => Seq::<u8>::empty(),
            }, None::<Seq<char>>),
            None => encode_statement(SpecStatement::Operation(i, Some(a), Some(b)), labels) == (
                Seq::<u8>::empty(),
                Some(invalid_combination()),
            ),
        },
        encode_statement(SpecStatement::Operation(i, Some(a), Some(b)), labels).1 is None ==> ({
            let first = encode_statement(SpecStatement::Operation(i, Some(a), Some(b)), labels).0[0];
            first / 16 == opcode(i) && first % 16 == pair_mode(a, b)
        }),
        encode_statement(SpecStatement::Operation(i, Some(a), None), labels) == (
            Seq::<u8>::empty(),
            Some(invalid_statement()),
        ),
        encode_statement(SpecStatement::Operation(i, None, None), labels) == (
            Seq::<u8>::empty(),
            Some(invalid_statement()),
        ),
{
    law_operation_codes(i, i);
    law_operand_pairs(a, b);
    if let Some((m, e)) = operand_pair_encoding(a, b) {
        let first = (opcode(i) * 16 + m) as u8;
        assert(first / 16 == opcode(i) && first % 16 == m) by (nonlinear_arith)
            requires
                opcode(i) < 16,
                m < 16,
                first == opcode(i) * 16 + m,
        ;
    }
}

/// `inc`, `dec`, `not`, `shr` and `shl` take one register or `[I]`: one
/// byte with the operation code in the high half and the mode (A: 0, B: 1,
/// I: 2, `[I]`: 4) in the low half. Any other operand is refused without
/// emitting anything.
pub proof fn law_one_operand_statements(i: Instruction, a: SpecOperand, labels: Map<Seq<char>, u8>)
    requires
        i is Inc || i is Dec || i is Not || i is Shr || i is Shl,
    ensures
        register_rank(a) >= 0 ==> encode_statement(SpecStatement::Operation(i, Some(a), None), labels)
            == (seq![(opcode(i) * 16 + register_rank(a) + if a is MemI {
            1int
        } else {
            0int
        }) as u8], None::<Seq<char>>),
        register_rank(a) < 0 ==> encode_statement(SpecStatement::Operation(i, Some(a), None), labels)
            == (Seq::<u8>::empty(), Some(invalid_single_operand())),
{
}

/// A jump to a label emits its operation code and the label's address; to
/// a label the table lacks it emits only the operation code and fails. A
/// jump to anything else is invalid.
pub proof fn law_jump_statements(
    i: Instruction,
    a: SpecOperand,
    labels: Map<Seq<char>, u8>,
)
    requires
        i is Jmp || i is Jz || i is Js || i is Jc || i is Jo || i is Jp,
    ensures
        a matches SpecOperand::Label(name) ==> encode_statement(
            SpecStatement::Operation(i, Some(a), None),
            labels,
        ) == if labels.contains_key(name) {
            (seq![opcode(i), labels[name]], None::<Seq<char>>)
        } else {
            (seq![opcode(i)], Some(label_not_found()))
        },
        !(a is Label) ==> encode_statement(SpecStatement::Operation(i, Some(a), None), labels) == (
            Seq::<u8>::empty(),
            Some(invalid_statement()),
        ),
{
}

/// `nop` without operands is the single byte 0xFF; a label declaration
/// emits nothing.
pub proof fn law_nop_and_labels(name: Seq<char>, labels: Map<Seq<char>, u8>)
    ensures
        encode_statement(SpecStatement::Operation(Instruction::Nop, None, None), labels) == (
            seq![0xFFu8],
            None::<Seq<char>>,
        ),
        encode_statement(SpecStatement::Label(name), labels) == (Seq::<u8>::empty(), None::<Seq<char>>),
{
}

/// Whether an operand brings a byte of its own.
fn carries_byte_exec(op: &Option<Operand>) -> (b: bool)
    ensures
        b == carries_byte(op.deep_view()),
{
    match op {
        Some(Operand::Const(_)) | Some(Operand::MemConst(_)) => true,
        _ => false,
    }
}

/// The room the first pass reserves for a statement.
fn reserved_size_exec(st: &Statement) -> (n: u8)
    ensures
        n == reserved_size(st@),
{
    match st {
        Statement::Operation(instruction, first, second) => {
            if carries_byte_exec(second) || carries_byte_exec(first) {
                2
            } else if matches!(instruction, Instruction::Jmp) && matches!(first, Some(Operand::Label(_))) {
                2
            } else {
                1
            }
        },
        Statement::Label(_) => 1,
    }
}

/// Whether the first pass can give every statement an address that fits
/// in one byte.
pub fn fits_address_space(statements: &Vec<Statement>) -> (b: bool)
    ensures
        b == fits_in_address_space(program_view(statements)),
{
    let ghost sv = program_view(statements);
    let mut total: u16 = 0;
    let mut k: usize = 0;
    while k < statements.len()
        invariant
            sv == program_view(statements),
            k <= statements.len(),
            total == address_after(sv, k as int),
            total <= 255,
        decreases statements.len() - k,
    {
        total = total + reserved_size_exec(&statements[k]) as u16;
        k = k + 1;
        if total > 255 {
            proof {
                lemma_address_after_monotonic(sv, k as int, sv.len() as int);
            }
            return false;
        }
    }
    true
}

/// Gives every declared label the address of its position: each statement
/// takes one byte, or two where an operand brings a byte of its own or a
/// `jmp` names a label.
pub fn first_pass(statements: &Vec<Statement>, labels: &mut LabelTable)
    requires
        old(labels).wf(),
        fits_in_address_space(program_view(statements)),
    ensures
        final(labels).wf(),
        final(labels)@ == labels_after(
            program_view(statements),
            statements.len() as int,
            old(labels)@,
        ),
{
    let ghost sv = program_view(statements);
    let ghost initial = labels@;
    assert(sv.len() == statements.len());
    let mut addr: u8 = 0;
    let mut k: usize = 0;
    while k < statements.len()
        invariant
            sv == program_view(statements),
            fits_in_address_space(sv),
            k <= statements.len(),
            addr == address_after(sv, k as int),
            labels.wf(),
            labels@ == labels_after(sv, k as int, initial),
        decreases statements.len() - k,
    {
        proof {
            lemma_address_after_monotonic(sv, k + 1, sv.len() as int);
        }
        let st = &statements[k];
        assert(sv[k as int] == st@);
        match st {
            Statement::Label(label) => {
                let name = (*label).to_string();
                assert(name@ == label@);
                labels.insert(name, addr);
            },
            _ => {},
        }
        addr = addr + reserved_size_exec(st);
        k = k + 1;
    }
}

/// Assembles the statements in order, appending their bytes; stops at the
/// first statement that fails and returns its error.
pub fn second_pass(statements: &Vec<Statement>, labels: &LabelTable, bytes: &mut Vec<u8>) -> (r:
    Result<(), &'static str>)
    requires
        labels.wf(),
    ensures
        final(bytes)@ == old(bytes)@ + encode_program(program_view(statements), labels@).0,
        match r {
            Ok(()) => encode_program(program_view(statements), labels@).1 is None,
            Err(msg) => encode_program(program_view(statements), labels@).1 == Some(msg@),
        },
{
    let ghost sv = program_view(statements);
    let ghost initial = bytes@;
    assert(sv.len() == statements.len());
    let ghost mut emitted: Seq<u8> = Seq::empty();
    let mut k: usize = 0;
    while k < statements.len()
        invariant
            sv == program_view(statements),
            labels.wf(),
            k <= statements.len(),
            initial == old(bytes)@,
            bytes@ == initial + emitted,
            encode_from(sv, 0, labels@) == (
                emitted + encode_from(sv, k as int, labels@).0,
                encode_from(sv, k as int, labels@).1,
            ),
        decreases statements.len() - k,
    {
        assert(sv[k as int] == statements[k as int]@);
        let ghost step = encode_statement(sv[k as int], labels@);
        let ghost rest = encode_from(sv, k + 1, labels@);
        match assemble_statement(&statements[k], labels, bytes) {
            Ok(()) => {
                proof {
                    assert(emitted + (step.0 + rest.0) =~= (emitted + step.0) + rest.0);
                    emitted = emitted + step.0;
                    assert(bytes@ =~= initial + emitted);
                }
            },
            Err(msg) => {
                assert(bytes@ =~= initial + (emitted + step.0));
                assert(encode_from(sv, k as int, labels@) == step);
                return Err(msg);
            },
        }
        k = k + 1;
    }
    assert(emitted + Seq::<u8>::empty() =~= emitted);
    Ok(())
}

/// Assembles a program: the first pass on an empty table, then the second
/// pass into an empty output.
pub fn assemble_program(statements: &Vec<Statement>) -> (r: Result<Vec<u8>, &'static str>)
    requires
        fits_in_address_space(program_view(statements)),
    ensures
        ({
            let table = labels_after(
                program_view(statements),
                statements.len() as int,
                Map::empty(),
            );
            let (code, error) = encode_program(program_view(statements), table);
            match r {
                Ok(bytes) => error is None && bytes@ == code,
                Err(msg) => error == Some(msg@),
            }
        }),
{
    let mut labels = LabelTable::new();
    first_pass(statements, &mut labels);
    let mut bytes: Vec<u8> = Vec::new();
    match second_pass(statements, &labels, &mut bytes) {
        Ok(()) => {
            assert(bytes@ =~= Seq::<u8>::empty() + bytes@);
            Ok(bytes)
        },
        Err(msg) => Err(msg),
    }
}

} // verus!
