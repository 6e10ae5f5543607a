//! Facts about the grammar: every parser stays inside the text, every
//! statement consumes something, and reading a whole file never fails.
use vstd::prelude::*;

use super::grammar::{
    blank_end, declared_name_end, ends_declared_name, ends_referenced_name, instruction_at,
    instruction_count, instruction_from, is_blank, mnemonic, operand_choice, referenced_name_end,
    spec_end_of_statement, spec_instruction, spec_operand, spec_statement, spec_statements,
    ParseError,
};

verus! {

/// A parser result that, when it succeeds, ends after `i` (strictly if
/// `strict`) and within the text.
pub open spec fn ends_within<T>(r: Result<(int, T), ParseError>, s: Seq<char>, i: int, strict: bool) -> bool {
    r matches Ok((j, _)) ==> (if strict { i < j } else { i <= j }) && j <= s.len()
}

pub proof fn lemma_blank_end_within(s: Seq<char>, i: int)
    requires
        0 <= i <= s.len(),
    ensures
        i <= blank_end(s, i) <= s.len(),
    decreases s.len() - i,
{
    if i < s.len() && is_blank(s[i]) {
        lemma_blank_end_within(s, i + 1);
    }
}

pub proof fn lemma_referenced_name_end_within(s: Seq<char>, i: int)
    requires
        0 <= i <= s.len(),
    ensures
        i <= referenced_name_end(s, i) <= s.len(),
    decreases s.len() - i,
{
    if i < s.len() && !ends_referenced_name(s[i]) {
        lemma_referenced_name_end_within(s, i + 1);
    }
}

pub proof fn lemma_declared_name_end_within(s: Seq<char>, i: int)
    requires
        0 <= i <= s.len(),
    ensures
        declared_name_end(s, i) matches Some(k) ==> i <= k < s.len(),
    decreases s.len() - i,
{
    if i < s.len() && !ends_declared_name(s[i]) {
        lemma_declared_name_end_within(s, i + 1);
    }
}

pub proof fn lemma_instruction_within(s: Seq<char>, i: int, k: int)
    requires
        0 <= i <= s.len(),
    ensures
        ends_within(instruction_from(s, i, k), s, i, true),
    decreases instruction_count() - k,
{
    if 0 <= k < instruction_count() {
        let w = mnemonic(instruction_at(k));
        assert(w.len() > 0);
        lemma_instruction_within(s, i, k + 1);
    }
}

pub proof fn lemma_end_of_statement_within(s: Seq<char>, i: int)
    requires
        0 <= i <= s.len(),
    ensures
        spec_end_of_statement(s, i) matches Ok(j) ==> i < j <= s.len(),
{
    lemma_blank_end_within(s, i);
}

pub proof fn lemma_operand_within(s: Seq<char>, i: int)
    requires
        0 <= i <= s.len(),
    ensures
        i <= spec_operand(s, i).0 <= s.len(),
{
    lemma_referenced_name_end_within(s, i);
    assert(ends_within(operand_choice(s, i), s, i, false));
}

pub proof fn lemma_statement_within(s: Seq<char>, i: int)
    requires
        0 <= i <= s.len(),
    ensures
        ends_within(spec_statement(s, i), s, i, true),
{
    let b = blank_end(s, i);
    lemma_blank_end_within(s, i);
    lemma_instruction_within(s, b, 0);
    lemma_declared_name_end_within(s, b);
    if let Ok((j, _)) = spec_instruction(s, b) {
        lemma_end_of_statement_within(s, j);
        let m = blank_end(s, j);
        lemma_blank_end_within(s, j);
        lemma_operand_within(s, m);
        let p = spec_operand(s, m).0;
        lemma_end_of_statement_within(s, p);
        lemma_blank_end_within(s, p);
        let q = blank_end(s, p);
        if q < s.len() {
            lemma_blank_end_within(s, q + 1);
            lemma_operand_within(s, blank_end(s, q + 1));
            lemma_end_of_statement_within(s, spec_operand(s, blank_end(s, q + 1)).0);
        }
    }
    if let Some(k) = declared_name_end(s, b) {
        lemma_blank_end_within(s, k);
        let m = blank_end(s, k);
        if m < s.len() {
            lemma_end_of_statement_within(s, m + 1);
        }
    }
}

/// Reading statements from any position of a text succeeds, and ends
/// between that position and the end of the text.
pub proof fn lemma_statements_succeed(s: Seq<char>, i: int)
    requires
        0 <= i <= s.len(),
    ensures
        spec_statements(s, i) matches Ok((k, _)) && i <= k <= s.len(),
    decreases s.len() - i,
{
    lemma_statement_within(s, i);
    if let Ok((j, _)) = spec_statement(s, i) {
        lemma_statements_succeed(s, j);
    }
}

} // verus!
