//! The grammar of the assembly language, as spec functions over the
//! characters of the source text.
//!
//! Every parser is described at a position `i` of the whole text `s`:
//! on success it yields the position just after what it consumed and the
//! value it recognised. A parser fails with [`ParseError::Invalid`] when the
//! text cannot match, and with [`ParseError::Incomplete`] when the text ends
//! before it could decide.
use vstd::prelude::*;

use super::types::{Instruction, SpecOperand, SpecStatement};

verus! {

/// Why a parser did not succeed.
#[derive(PartialEq, Eq, Structural, Debug, Clone, Copy)]
pub enum ParseError {
    /// The text does not match.
    Invalid,
    /// The text ends before the parser could decide.
    Incomplete,
}

/// The outcome of a parser in the grammar: the end position and a value.
pub type SpecResult<T> = Result<(int, T), ParseError>;

/// Ordered choice: the second alternative is tried only when the first one
/// is invalid; an incomplete first alternative ends the choice.
pub open spec fn alt<T>(first: SpecResult<T>, second: SpecResult<T>) -> SpecResult<T> {
    match first {
        Err(ParseError::Invalid) => second,
        _ => first,
    }
}

/// A blank is a space or a tab.
pub open spec fn is_blank(c: char) -> bool {
    c == ' ' || c == '\t'
}

/// The position after the run of blanks that starts at `i`.
pub open spec fn blank_end(s: Seq<char>, i: int) -> int
    decreases s.len() - i,
{
    if 0 <= i < s.len() && is_blank(s[i]) {
        blank_end(s, i + 1)
    } else {
        i
    }
}

/// A label declaration's name ends at a colon, a space or a line break.
pub open spec fn ends_declared_name(c: char) -> bool {
    c == ':' || c == ' ' || c == '\n'
}

/// The position of the first character at or after `i` that ends a declared
/// name, if the text has one.
pub open spec fn declared_name_end(s: Seq<char>, i: int) -> Option<int>
    decreases s.len() - i,
{
    if 0 <= i < s.len() {
        if ends_declared_name(s[i]) {
            Some(i)
        } else {
            declared_name_end(s, i + 1)
        }
    } else {
        None
    }
}

/// A label used as an operand ends at a space or a line break.
pub open spec fn ends_referenced_name(c: char) -> bool {
    c == ' ' || c == '\n'
}

/// The position of the first character at or after `i` that ends a label
/// operand, or the end of the text.
pub open spec fn referenced_name_end(s: Seq<char>, i: int) -> int
    decreases s.len() - i,
{
    if 0 <= i < s.len() && !ends_referenced_name(s[i]) {
        referenced_name_end(s, i + 1)
    } else {
        i
    }
}

/// The one-character token `c` at position `i`.
pub open spec fn tag_char(s: Seq<char>, i: int, c: char) -> Result<int, ParseError> {
    if i >= s.len() {
        Err(ParseError::Incomplete)
    } else if s[i] == c {
        Ok(i + 1)
    } else {
        Err(ParseError::Invalid)
    }
}

/// `c` is the lower-case letter `lower`, or its capital.
pub open spec fn same_letter(c: char, lower: char) -> bool {
    c == lower || ('A' <= c && c <= 'Z' && (c as u32) + 32 == (lower as u32))
}

/// The lower-case word `word` at position `i`, in any case. The text may
/// end early only where everything before its end matches.
pub open spec fn tag_no_case(s: Seq<char>, i: int, word: Seq<char>) -> Result<int, ParseError> {
    if exists|k: int|
        0 <= k < word.len() && i + k < s.len() && !same_letter(#[trigger] s[i + k], word[k]) {
        Err(ParseError::Invalid)
    } else if i + word.len() <= s.len() {
        Ok(i + word.len())
    } else {
        Err(ParseError::Incomplete)
    }
}

/// The instructions in the order in which the parser tries their mnemonics.
pub open spec fn instruction_at(k: int) -> Instruction {
    if k == 0 {
        Instruction::Add
    } else if k == 1 {
        Instruction::Sub
    } else if k == 2 {
        Instruction::Cmp
    } else if k == 3 {
        Instruction::Inc
    } else if k == 4 {
        Instruction::Dec
    } else if k == 5 {
        Instruction::And
    } else if k == 6 {
        Instruction::Or
    } else if k == 7 {
        Instruction::Not
    } else if k == 8 {
        Instruction::Shr
    } else if k == 9 {
        Instruction::Shl
    } else if k == 10 {
        Instruction::Jmp
    } else if k == 11 {
        Instruction::Jz
    } else if k == 12 {
        Instruction::Js
    } else if k == 13 {
        Instruction::Jc
    } else if k == 14 {
        Instruction::Jo
    } else if k == 15 {
        Instruction::Jp
    } else if k == 16 {
        Instruction::Mov
    } else {
        Instruction::Nop
    }
}

/// The number of instructions.
pub open spec fn instruction_count() -> int {
    18
}

/// The mnemonic of an instruction, in lower case.
pub open spec fn mnemonic(ins: Instruction) -> Seq<char> {
    match ins {
        Instruction::Add => seq!['a', 'd', 'd'],
        Instruction::Sub => seq!['s', 'u', 'b'],
        Instruction::Cmp => seq!['c', 'm', 'p'],
        Instruction::Inc => seq!['i', 'n', 'c'],
        Instruction::Dec => seq!['d', 'e', 'c'],
        Instruction::And => seq!['a', 'n', 'd'],
        Instruction::Or => seq!['o', 'r'],
        Instruction::Not => seq!['n', 'o', 't'],
        Instruction::Shr => seq!['s', 'h', 'r'],
        Instruction::Shl => seq!['s', 'h', 'l'],
        Instruction::Jmp => seq!['j', 'm', 'p'],
        Instruction::Jz => seq!['j', 'z'],
        Instruction::Js => seq!['j', 's'],
        Instruction::Jc => seq!['j', 'c'],
        Instruction::Jo => seq!['j', 'o'],
        Instruction::Jp => seq!['j', 'p'],
        Instruction::Mov => seq!['m', 'o', 'v'],
        Instruction::Nop => seq!['n', 'o', 'p'],
    }
}

/// Tries the mnemonics from the `k`-th one on, in order.
pub open spec fn instruction_from(s: Seq<char>, i: int, k: int) -> SpecResult<Instruction>
    decreases instruction_count() - k,
{
    if 0 <= k < instruction_count() {
        let ins = instruction_at(k);
        match tag_no_case(s, i, mnemonic(ins)) {
            Ok(j) => Ok((j, ins)),
            Err(ParseError::Incomplete) => Err(ParseError::Incomplete),
            Err(ParseError::Invalid) => instruction_from(s, i, k + 1),
        }
    } else {
        Err(ParseError::Invalid)
    }
}

/// An instruction mnemonic, in any case: the first mnemonic of the list
/// that matches a prefix of the text.
pub open spec fn spec_instruction(s: Seq<char>, i: int) -> SpecResult<Instruction> {
    instruction_from(s, i, 0)
}

/// Optional blanks and a line break.
pub open spec fn spec_end_of_statement(s: Seq<char>, i: int) -> Result<int, ParseError> {
    let j = blank_end(s, i);
    if 0 <= j < s.len() && s[j] == '\n' {
        Ok(j + 1)
    } else {
        Err(ParseError::Invalid)
    }
}

/// A register: the one-character token `c`, standing for `op`.
pub open spec fn spec_register(s: Seq<char>, i: int, c: char, op: SpecOperand) -> SpecResult<
    SpecOperand,
> {
    match tag_char(s, i, c) {
        Ok(j) => Ok((j, op)),
        Err(e) => Err(e),
    }
}

/// A hexadecimal digit.
pub open spec fn is_hex_digit(c: char) -> bool {
    ('0' <= c && c <= '9') || ('a' <= c && c <= 'f') || ('A' <= c && c <= 'F')
}

/// The value of a hexadecimal digit.
pub open spec fn hex_digit_value(c: char) -> int {
    if '0' <= c && c <= '9' {
        (c as int) - ('0' as int)
    } else if 'a' <= c && c <= 'f' {
        (c as int) - ('a' as int) + 10
    } else {
        (c as int) - ('A' as int) + 10
    }
}

/// The byte that two characters spell in base 16: two digits, or a plus
/// sign and one digit.
pub open spec fn hex_byte(a: char, b: char) -> Option<u8> {
    if is_hex_digit(a) && is_hex_digit(b) {
        Some((16 * hex_digit_value(a) + hex_digit_value(b)) as u8)
    } else if a == '+' && is_hex_digit(b) {
        Some(hex_digit_value(b) as u8)
    } else {
        None
    }
}

/// A constant: two characters that spell a byte in base 16, then `h` in
/// any case.
pub open spec fn spec_const(s: Seq<char>, i: int) -> SpecResult<SpecOperand> {
    if s.len() < i + 3 {
        Err(ParseError::Incomplete)
    } else if !same_letter(s[i + 2], 'h') {
        Err(ParseError::Invalid)
    } else {
        match hex_byte(s[i], s[i + 1]) {
            Some(v) => Ok((i + 3, SpecOperand::Const(v))),
            None => Err(ParseError::Invalid),
        }
    }
}

/// `[I]`, the cell that register I points at.
pub open spec fn spec_mem_indirect(s: Seq<char>, i: int) -> SpecResult<SpecOperand> {
    match tag_char(s, i, '[') {
        Err(e) => Err(e),
        Ok(j) => match tag_char(s, j, 'I') {
            Err(e) => Err(e),
            Ok(k) => match tag_char(s, k, ']') {
                Err(e) => Err(e),
                Ok(l) => Ok((l, SpecOperand::MemI)),
            },
        },
    }
}

/// `[` constant `]`, the cell at a constant address.
pub open spec fn spec_mem_direct(s: Seq<char>, i: int) -> SpecResult<SpecOperand> {
    match tag_char(s, i, '[') {
        Err(e) => Err(e),
        Ok(j) => match spec_const(s, j) {
            Err(e) => Err(e),
            Ok((k, c)) => match tag_char(s, k, ']') {
                Err(e) => Err(e),
                Ok(l) => match c {
                    SpecOperand::Const(v) => Ok((l, SpecOperand::MemConst(v))),
                    _ => Err(ParseError::Invalid),
                },
            },
        },
    }
}

/// A memory operand.
pub open spec fn spec_mem(s: Seq<char>, i: int) -> SpecResult<SpecOperand> {
    alt(spec_mem_indirect(s, i), spec_mem_direct(s, i))
}

/// A label used as an operand: everything up to a space, a line break or
/// the end of the text (possibly nothing).
pub open spec fn spec_label_ref(s: Seq<char>, i: int) -> (int, SpecOperand) {
    let j = referenced_name_end(s, i);
    (j, SpecOperand::Label(s.subrange(i, j)))
}

/// The alternatives of an operand, in order.
pub open spec fn operand_choice(s: Seq<char>, i: int) -> SpecResult<SpecOperand> {
    alt(
        spec_register(s, i, 'A', SpecOperand::A),
        alt(
            spec_register(s, i, 'B', SpecOperand::B),
            alt(
                spec_register(s, i, 'I', SpecOperand::I),
                alt(spec_mem(s, i), alt(spec_const(s, i), Ok(spec_label_ref(s, i)))),
            ),
        ),
    )
}

/// An optional operand: where no alternative applies, nothing is consumed.
pub open spec fn spec_operand(s: Seq<char>, i: int) -> (int, Option<SpecOperand>) {
    match operand_choice(s, i) {
        Ok((j, op)) => (j, Some(op)),
        Err(_) => (i, None),
    }
}

/// A label declaration: a name, optional blanks, a colon and the end of
/// the statement.
pub open spec fn spec_label_declaration(s: Seq<char>, i: int) -> SpecResult<SpecStatement> {
    match declared_name_end(s, i) {
        None => Err(ParseError::Incomplete),
        Some(k) => match tag_char(s, blank_end(s, k), ':') {
            Err(e) => Err(e),
            Ok(c) => match spec_end_of_statement(s, c) {
                Err(e) => Err(e),
                Ok(e) => Ok((e, SpecStatement::Label(s.subrange(i, k)))),
            },
        },
    }
}

/// An instruction alone on its line.
pub open spec fn spec_no_operand_op(s: Seq<char>, i: int) -> SpecResult<SpecStatement> {
    match spec_instruction(s, i) {
        Err(e) => Err(e),
        Ok((j, ins)) => match spec_end_of_statement(s, j) {
            Err(e) => Err(e),
            Ok(k) => Ok((k, SpecStatement::Operation(ins, None, None))),
        },
    }
}

/// An instruction, at least one blank and one (optional) operand.
pub open spec fn spec_single_operand_op(s: Seq<char>, i: int) -> SpecResult<SpecStatement> {
    match spec_instruction(s, i) {
        Err(e) => Err(e),
        Ok((j, ins)) => {
            let m = blank_end(s, j);
            if m == j {
                Err(ParseError::Invalid)
            } else {
                let (p, op) = spec_operand(s, m);
                match spec_end_of_statement(s, p) {
                    Err(e) => Err(e),
                    Ok(k) => Ok((k, SpecStatement::Operation(ins, op, None))),
                }
            }
        },
    }
}

/// An instruction, at least one blank and two (optional) operands separated
/// by a comma with optional blanks around it.
pub open spec fn spec_dual_operand_op(s: Seq<char>, i: int) -> SpecResult<SpecStatement> {
    match spec_instruction(s, i) {
        Err(e) => Err(e),
        Ok((j, ins)) => {
            let m = blank_end(s, j);
            if m == j {
                Err(ParseError::Invalid)
            } else {
                let (p, first) = spec_operand(s, m);
                match tag_char(s, blank_end(s, p), ',') {
                    Err(e) => Err(e),
                    Ok(q) => {
                        let (r, second) = spec_operand(s, blank_end(s, q));
                        match spec_end_of_statement(s, r) {
                            Err(e) => Err(e),
                            Ok(k) => Ok((k, SpecStatement::Operation(ins, first, second))),
                        }
                    },
                }
            }
        },
    }
}

/// An operation: without operands, with one, or with two, tried in that
/// order.
pub open spec fn spec_operation(s: Seq<char>, i: int) -> SpecResult<SpecStatement> {
    alt(
        spec_no_operand_op(s, i),
        alt(spec_single_operand_op(s, i), spec_dual_operand_op(s, i)),
    )
}

/// A statement: optional blanks, then an operation or a label declaration.
pub open spec fn spec_statement(s: Seq<char>, i: int) -> SpecResult<SpecStatement> {
    let b = blank_end(s, i);
    alt(spec_operation(s, b), spec_label_declaration(s, b))
}

/// Statements one after the other, as long as they parse; a statement that
/// consumes nothing would make the whole sequence invalid.
pub open spec fn spec_statements(s: Seq<char>, i: int) -> SpecResult<Seq<SpecStatement>>
    decreases s.len() - i,
{
    match spec_statement(s, i) {
        Err(_) => Ok((i, seq![])),
        Ok((j, st)) => if i < j <= s.len() {
            match spec_statements(s, j) {
                Ok((k, rest)) => Ok((k, seq![st] + rest)),
                Err(e) => Err(e),
            }
        } else {
            Err(ParseError::Invalid)
        },
    }
}

} // verus!
