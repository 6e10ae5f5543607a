//! The parser of the assembly language.
//!
//! Each parser takes the text that is left, and on success returns what is
//! left after it together with what it recognised. What each one accepts is
//! stated by its counterpart in [`grammar`], read from the start of the text.
pub mod cursor;
pub mod grammar;
pub mod laws;
pub mod properties;
pub mod text;
pub mod types;

use vstd::prelude::*;
use vstd::string::StrSliceExecFns;

use cursor::{
    const_at, dual_operand_op_at, end_of_statement_at, instruction_at_pos, label_declaration_at,
    label_ref_at, mem_at, no_operand_op_at, operand_at, operation_at, register_at,
    single_operand_op_at, source, statement_at, statements_at, value_result,
};
use grammar::{
    spec_const, spec_dual_operand_op, spec_end_of_statement, spec_instruction,
    spec_label_declaration, spec_label_ref, spec_mem, spec_no_operand_op, spec_operand,
    spec_operation, spec_register, spec_single_operand_op, spec_statement, spec_statements,
    ParseError, SpecResult,
};
use text::chars_of;
use types::{Instruction, Operand, SpecOperand, Statement};

verus! {

/// What a parser returns: the text left over and the value, or why it failed.
pub type PResult<'a, T> = Result<(&'a str, T), ParseError>;

/// `r` is what the grammar's `expected` outcome on `input` says: the same
/// error, or the text after the end position and the same value.
pub open spec fn parsed_as<T: DeepView>(
    r: PResult<'_, T>,
    input: Seq<char>,
    expected: SpecResult<T::V>,
) -> bool {
    match (r, expected) {
        (Ok((rest, v)), Ok((j, ev))) => 0 <= j <= input.len() && rest@ == input.subrange(
            j,
            input.len() as int,
        ) && v.deep_view() == ev,
        (Err(e), Err(ee)) => e == ee,
        _ => false,
    }
}

/// A grammar outcome that carries no value.
pub open spec fn unit_result(r: Result<int, ParseError>) -> SpecResult<()> {
    match r {
        Ok(j) => Ok((j, ())),
        Err(e) => Err(e),
    }
}

/// Turns a result over the characters of `text` into one over `text`.
fn finish<'a, T: DeepView>(text: &'a str, s: &Vec<char>, r: Result<(usize, T), ParseError>) -> (out:
    PResult<'a, T>)
    requires
        source(text, s),
        r matches Ok((j, _)) ==> j <= s.len(),
    ensures
        parsed_as(out, text@, value_result(r)),
{
    match r {
        Ok((j, v)) => Ok((text.substring_char(j, s.len()), v)),
        Err(e) => Err(e),
    }
}

/// Reads statements until one does not parse; returns them and the text
/// from that point on. It never fails.
pub fn parse_file(input: &str) -> (r: PResult<'_, Vec<Statement<'_>>>)
    ensures
        parsed_as(r, input@, spec_statements(input@, 0)),
        r is Ok,
{
    let s = chars_of(input);
    let (j, statements) = statements_at(input, &s, 0);
    finish(input, &s, Ok((j, statements)))
}

/// Optional blanks, then an operation or a label declaration.
pub fn parse_statement(input: &str) -> (r: PResult<'_, Statement<'_>>)
    ensures
        parsed_as(r, input@, spec_statement(input@, 0)),
{
    let s = chars_of(input);
    finish(input, &s, statement_at(input, &s, 0))
}

/// Optional blanks and a line break.
pub fn end_of_statement(input: &str) -> (r: PResult<'_, ()>)
    ensures
        parsed_as(r, input@, unit_result(spec_end_of_statement(input@, 0))),
{
    let s = chars_of(input);
    let r = match end_of_statement_at(&s, 0) {
        Ok(j) => Ok((j, ())),
        Err(e) => Err(e),
    };
    finish(input, &s, r)
}

/// A name, optional blanks, a colon and the end of the statement.
pub fn parse_label_declaration(input: &str) -> (r: PResult<'_, Statement<'_>>)
    ensures
        parsed_as(r, input@, spec_label_declaration(input@, 0)),
{
    let s = chars_of(input);
    finish(input, &s, label_declaration_at(input, &s, 0))
}

/// An operation with no, one or two operands.
pub fn parse_operation(input: &str) -> (r: PResult<'_, Statement<'_>>)
    ensures
        parsed_as(r, input@, spec_operation(input@, 0)),
{
    let s = chars_of(input);
    finish(input, &s, operation_at(input, &s, 0))
}

/// An instruction and the end of the statement.
pub fn parse_no_inst_op(input: &str) -> (r: PResult<'_, Statement<'_>>)
    ensures
        parsed_as(r, input@, spec_no_operand_op(input@, 0)),
{
    let s = chars_of(input);
    finish(input, &s, no_operand_op_at(&s, 0))
}

/// An instruction, blanks, an operand and the end of the statement.
pub fn parse_single_inst_op(input: &str) -> (r: PResult<'_, Statement<'_>>)
    ensures
        parsed_as(r, input@, spec_single_operand_op(input@, 0)),
{
    let s = chars_of(input);
    finish(input, &s, single_operand_op_at(input, &s, 0))
}

/// An instruction, blanks, two operands separated by a comma and the end
/// of the statement.
pub fn parse_dual_inst_op(input: &str) -> (r: PResult<'_, Statement<'_>>)
    ensures
        parsed_as(r, input@, spec_dual_operand_op(input@, 0)),
{
    let s = chars_of(input);
    finish(input, &s, dual_operand_op_at(input, &s, 0))
}

/// An operand if one can be read; otherwise `None` and nothing consumed.
/// It never fails.
pub fn parse_operand(input: &str) -> (r: PResult<'_, Option<Operand<'_>>>)
    ensures
        parsed_as(r, input@, Ok(spec_operand(input@, 0))),
        r is Ok,
{
    let s = chars_of(input);
    let (j, op) = operand_at(input, &s, 0);
    finish(input, &s, Ok((j, op)))
}

/// The register A.
pub fn parse_a(input: &str) -> (r: PResult<'_, Operand<'_>>)
    ensures
        parsed_as(r, input@, spec_register(input@, 0, 'A', SpecOperand::A)),
{
    let s = chars_of(input);
    finish(input, &s, register_at(&s, 0, 'A', Operand::A))
}

/// The register B.
pub fn parse_b(input: &str) -> (r: PResult<'_, Operand<'_>>)
    ensures
        parsed_as(r, input@, spec_register(input@, 0, 'B', SpecOperand::B)),
{
    let s = chars_of(input);
    finish(input, &s, register_at(&s, 0, 'B', Operand::B))
}

/// The register I.
pub fn parse_i(input: &str) -> (r: PResult<'_, Operand<'_>>)
    ensures
        parsed_as(r, input@, spec_register(input@, 0, 'I', SpecOperand::I)),
{
    let s = chars_of(input);
    finish(input, &s, register_at(&s, 0, 'I', Operand::I))
}

/// A constant: two characters that spell a byte in base 16, then `h` or `H`.
pub fn parse_const(input: &str) -> (r: PResult<'_, Operand<'_>>)
    ensures
        parsed_as(r, input@, spec_const(input@, 0)),
{
    let s = chars_of(input);
    finish(input, &s, const_at(&s, 0))
}

/// `[I]` or `[` constant `]`.
pub fn parse_mem(input: &str) -> (r: PResult<'_, Operand<'_>>)
    ensures
        parsed_as(r, input@, spec_mem(input@, 0)),
{
    let s = chars_of(input);
    finish(input, &s, mem_at(&s, 0))
}

/// A label used as an operand: everything up to a space or a line break.
/// It never fails.
pub fn parse_label(input: &str) -> (r: PResult<'_, Operand<'_>>)
    ensures
        parsed_as(r, input@, Ok(spec_label_ref(input@, 0))),
        r is Ok,
{
    let s = chars_of(input);
    let (j, op) = label_ref_at(input, &s, 0);
    finish(input, &s, Ok((j, op)))
}

/// An instruction mnemonic, in any case.
pub fn parse_instruction(input: &str) -> (r: PResult<'_, Instruction>)
    ensures
        parsed_as(r, input@, spec_instruction(input@, 0)),
{
    let s = chars_of(input);
    finish(input, &s, instruction_at_pos(&s, 0))
}

} // verus!
