//! The parsers of the grammar, run over the characters of the text from a
//! position. Each one computes exactly what its spec function in
//! [`super::grammar`] describes.
use vstd::prelude::*;
use vstd::string::StrSliceExecFns;

use super::properties::{lemma_declared_name_end_within, lemma_statements_succeed};
use super::grammar::{
    blank_end, declared_name_end, hex_byte, hex_digit_value, instruction_at, instruction_from,
    is_hex_digit, mnemonic, operand_choice, referenced_name_end, same_letter, spec_const,
    spec_dual_operand_op, spec_end_of_statement, spec_instruction, spec_label_declaration,
    spec_label_ref, spec_mem, spec_mem_direct, spec_mem_indirect, spec_no_operand_op, spec_operand,
    spec_operation, spec_register, spec_single_operand_op, spec_statement, spec_statements,
    tag_char, tag_no_case, ParseError, SpecResult,
};
use super::types::{Instruction, Operand, SpecStatement, Statement};

verus! {

/// A position result of the exec parsers, seen as one of the grammar.
pub open spec fn pos_result(r: Result<usize, ParseError>) -> Result<int, ParseError> {
    match r {
        Ok(j) => Ok(j as int),
        Err(e) => Err(e),
    }
}

/// A value result of the exec parsers, seen as one of the grammar.
pub open spec fn value_result<T: DeepView>(r: Result<(usize, T), ParseError>) -> SpecResult<T::V> {
    match r {
        Ok((j, v)) => Ok((j as int, v.deep_view())),
        Err(e) => Err(e),
    }
}

/// `s` holds the characters of `text`, in order.
pub open spec fn source(text: &str, s: &Vec<char>) -> bool {
    s@ == text@
}

/// The position after the blanks at `i`.
pub fn blank_end_at(s: &Vec<char>, i: usize) -> (j: usize)
    requires
        i <= s.len(),
    ensures
        j == blank_end(s@, i as int),
        i <= j <= s.len(),
{
    let mut j = i;
    while j < s.len() && (s[j] == ' ' || s[j] == '\t')
        invariant
            i <= j <= s.len(),
            blank_end(s@, j as int) == blank_end(s@, i as int),
        decreases s.len() - j,
    {
        j = j + 1;
    }
    j
}

/// The end of a declared name starting at `i`, if the text has one.
pub fn declared_name_end_at(s: &Vec<char>, i: usize) -> (r: Option<usize>)
    requires
        i <= s.len(),
    ensures
        match r {
            Some(k) => declared_name_end(s@, i as int) == Some(k as int),
            None => declared_name_end(s@, i as int) is None,
        },
{
    let mut k = i;
    while k < s.len()
        invariant
            i <= k <= s.len(),
            declared_name_end(s@, k as int) == declared_name_end(s@, i as int),
        decreases s.len() - k,
    {
        if s[k] == ':' || s[k] == ' ' || s[k] == '\n' {
            return Some(k);
        }
        k = k + 1;
    }
    None
}

/// The end of a label operand starting at `i`.
pub fn referenced_name_end_at(s: &Vec<char>, i: usize) -> (j: usize)
    requires
        i <= s.len(),
    ensures
        j == referenced_name_end(s@, i as int),
        i <= j <= s.len(),
{
    let mut j = i;
    while j < s.len() && s[j] != ' ' && s[j] != '\n'
        invariant
            i <= j <= s.len(),
            referenced_name_end(s@, j as int) == referenced_name_end(s@, i as int),
        decreases s.len() - j,
    {
        j = j + 1;
    }
    j
}

/// The one-character token `c` at `i`.
pub fn tag_char_at(s: &Vec<char>, i: usize, c: char) -> (r: Result<usize, ParseError>)
    requires
        i <= s.len(),
    ensures
        pos_result(r) == tag_char(s@, i as int, c),
        r matches Ok(j) ==> j == i + 1 && j <= s.len(),
{
    if i >= s.len() {
        Err(ParseError::Incomplete)
    } else if s[i] == c {
        Ok(i + 1)
    } else {
        Err(ParseError::Invalid)
    }
}

/// `c` is the lower-case letter `lower` or its capital.
pub fn same_letter_exec(c: char, lower: char) -> (b: bool)
    ensures
        b == same_letter(c, lower),
{
    c == lower || ('A' <= c && c <= 'Z' && (c as u32) + 32 == (lower as u32))
}

/// The lower-case word `word` at `i`, in any case.
pub fn tag_no_case_at(s: &Vec<char>, i: usize, word: &[char]) -> (r: Result<usize, ParseError>)
    requires
        i <= s.len(),
    ensures
        pos_result(r) == tag_no_case(s@, i as int, word@),
        r matches Ok(j) ==> i <= j <= s.len(),
{
    let mut k: usize = 0;
    while k < word.len() && k < s.len() - i
        invariant
            i <= s.len(),
            k <= word.len(),
            k <= s.len() - i,
            forall|m: int| 0 <= m < k ==> same_letter(#[trigger] s@[i + m], word@[m]),
        decreases word.len() - k,
    {
        if !same_letter_exec(s[i + k], word[k]) {
            assert(!same_letter(s@[i + k as int], word@[k as int]));
            return Err(ParseError::Invalid);
        }
        k = k + 1;
    }
    if k < word.len() {
        Err(ParseError::Incomplete)
    } else {
        Ok(i + word.len())
    }
}

/// The mnemonic of an instruction, in lower case.
pub fn mnemonic_chars(ins: Instruction) -> (m: &'static [char])
    ensures
        m@ == mnemonic(ins),
{
    match ins {
        Instruction::Add => &['a', 'd', 'd'],
        Instruction::Sub => &['s', 'u', 'b'],
        Instruction::Cmp => &['c', 'm', 'p'],
        Instruction::Inc => &['i', 'n', 'c'],
        Instruction::Dec => &['d', 'e', 'c'],
        Instruction::And => &['a', 'n', 'd'],
        Instruction::Or => &['o', 'r'],
        Instruction::Not => &['n', 'o', 't'],
        Instruction::Shr => &['s', 'h', 'r'],
        Instruction::Shl => &['s', 'h', 'l'],
        Instruction::Jmp => &['j', 'm', 'p'],
        Instruction::Jz => &['j', 'z'],
        Instruction::Js => &['j', 's'],
        Instruction::Jc => &['j', 'c'],
        Instruction::Jo => &['j', 'o'],
        Instruction::Jp => &['j', 'p'],
        Instruction::Mov => &['m', 'o', 'v'],
        Instruction::Nop => &['n', 'o', 'p'],
    }
}

/// The instruction tried `k`-th by the parser.
pub fn instruction_by_rank(k: usize) -> (ins: Instruction)
    ensures
        ins == instruction_at(k as int),
{
    match k {
        0 => Instruction::Add,
        1 => Instruction::Sub,
        2 => Instruction::Cmp,
        3 => Instruction::Inc,
        4 => Instruction::Dec,
        5 => Instruction::And,
        6 => Instruction::Or,
        7 => Instruction::Not,
        8 => Instruction::Shr,
        9 => Instruction::Shl,
        10 => Instruction::Jmp,
        11 => Instruction::Jz,
        12 => Instruction::Js,
        13 => Instruction::Jc,
        14 => Instruction::Jo,
        15 => Instruction::Jp,
        16 => Instruction::Mov,
        _ => Instruction::Nop,
    }
}

/// An instruction mnemonic at `i`.
pub fn instruction_at_pos(s: &Vec<char>, i: usize) -> (r: Result<(usize, Instruction), ParseError>)
    requires
        i <= s.len(),
    ensures
        value_result(r) == spec_instruction(s@, i as int),
        r matches Ok((j, _)) ==> i <= j <= s.len(),
{
    let mut k: usize = 0;
    while k < 18
        invariant
            k <= 18,
            i <= s.len(),
            instruction_from(s@, i as int, k as int) == instruction_from(s@, i as int, 0),
        decreases 18 - k,
    {
        let ins = instruction_by_rank(k);
        match tag_no_case_at(s, i, mnemonic_chars(ins)) {
            Ok(j) => {
                return Ok((j, ins));
            },
            Err(ParseError::Incomplete) => {
                return Err(ParseError::Incomplete);
            },
            Err(ParseError::Invalid) => {},
        }
        k = k + 1;
    }
    Err(ParseError::Invalid)
}

/// Optional blanks and a line break at `i`.
pub fn end_of_statement_at(s: &Vec<char>, i: usize) -> (r: Result<usize, ParseError>)
    requires
        i <= s.len(),
    ensures
        pos_result(r) == spec_end_of_statement(s@, i as int),
        r matches Ok(j) ==> i < j <= s.len(),
{
    let j = blank_end_at(s, i);
    if j < s.len() && s[j] == '\n' {
        Ok(j + 1)
    } else {
        Err(ParseError::Invalid)
    }
}

/// A register written as the one-character token `c`.
pub fn register_at<'a>(s: &Vec<char>, i: usize, c: char, op: Operand<'a>) -> (r: Result<
    (usize, Operand<'a>),
    ParseError,
>)
    requires
        i <= s.len(),
    ensures
        value_result(r) == spec_register(s@, i as int, c, op@),
        r matches Ok((j, _)) ==> i < j <= s.len(),
{
    match tag_char_at(s, i, c) {
        Ok(j) => Ok((j, op)),
        Err(e) => Err(e),
    }
}

/// The value of a hexadecimal digit, if `c` is one.
pub fn hex_digit_at(c: char) -> (r: Option<u8>)
    ensures
        match r {
            Some(v) => is_hex_digit(c) && v == hex_digit_value(c),
            None => !is_hex_digit(c),
        },
{
    if '0' <= c && c <= '9' {
        Some(((c as u32) - ('0' as u32)) as u8)
    } else if 'a' <= c && c <= 'f' {
        Some(((c as u32) - ('a' as u32) + 10) as u8)
    } else if 'A' <= c && c <= 'F' {
        Some(((c as u32) - ('A' as u32) + 10) as u8)
    } else {
        None
    }
}

/// The byte that `a` and `b` spell in base 16.
pub fn hex_byte_at(a: char, b: char) -> (r: Option<u8>)
    ensures
        r == hex_byte(a, b),
{
    match (hex_digit_at(a), hex_digit_at(b)) {
        (Some(x), Some(y)) => Some(16 * x + y),
        (None, Some(y)) => if a == '+' {
            Some(y)
        } else {
            None
        },
        _ => None,
    }
}

/// A constant at `i`.
pub fn const_at<'a>(s: &Vec<char>, i: usize) -> (r: Result<(usize, Operand<'a>), ParseError>)
    requires
        i <= s.len(),
    ensures
        value_result(r) == spec_const(s@, i as int),
        r matches Ok((j, _)) ==> i < j <= s.len(),
{
    if s.len() - i < 3 {
        Err(ParseError::Incomplete)
    } else if !same_letter_exec(s[i + 2], 'h') {
        Err(ParseError::Invalid)
    } else {
        match hex_byte_at(s[i], s[i + 1]) {
            Some(v) => Ok((i + 3, Operand::Const(v))),
            None => Err(ParseError::Invalid),
        }
    }
}

/// `[I]` at `i`.
pub fn mem_indirect_at<'a>(s: &Vec<char>, i: usize) -> (r: Result<(usize, Operand<'a>), ParseError>)
    requires
        i <= s.len(),
    ensures
        value_result(r) == spec_mem_indirect(s@, i as int),
        r matches Ok((j, _)) ==> i < j <= s.len(),
{
    let j = match tag_char_at(s, i, '[') {
        Ok(j) => j,
        Err(e) => {
            return Err(e);
        },
    };
    let k = match tag_char_at(s, j, 'I') {
        Ok(k) => k,
        Err(e) => {
            return Err(e);
        },
    };
    match tag_char_at(s, k, ']') {
        Ok(l) => Ok((l, Operand::MemI)),
        Err(e) => Err(e),
    }
}

/// `[` constant `]` at `i`.
pub fn mem_direct_at<'a>(s: &Vec<char>, i: usize) -> (r: Result<(usize, Operand<'a>), ParseError>)
    requires
        i <= s.len(),
    ensures
        value_result(r) == spec_mem_direct(s@, i as int),
        r matches Ok((j, _)) ==> i < j <= s.len(),
{
    let j = match tag_char_at(s, i, '[') {
        Ok(j) => j,
        Err(e) => {
            return Err(e);
        },
    };
    let (k, c) = match const_at(s, j) {
        Ok(res) => res,
        Err(e) => {
            return Err(e);
        },
    };
    match tag_char_at(s, k, ']') {
        Ok(l) => match c {
            Operand::Const(v) => Ok((l, Operand::MemConst(v))),
            _ => Err(ParseError::Invalid),
        },
        Err(e) => Err(e),
    }
}

/// A memory operand at `i`.
pub fn mem_at<'a>(s: &Vec<char>, i: usize) -> (r: Result<(usize, Operand<'a>), ParseError>)
    requires
        i <= s.len(),
    ensures
        value_result(r) == spec_mem(s@, i as int),
        r matches Ok((j, _)) ==> i < j <= s.len(),
{
    match mem_indirect_at(s, i) {
        Err(ParseError::Invalid) => mem_direct_at(s, i),
        other => other,
    }
}

/// A label operand at `i`; it borrows its name from `text`.
pub fn label_ref_at<'a>(text: &'a str, s: &Vec<char>, i: usize) -> (r: (usize, Operand<'a>))
    requires
        source(text, s),
        i <= s.len(),
    ensures
        (r.0 as int, r.1@) == spec_label_ref(s@, i as int),
        i <= r.0 <= s.len(),
{
    let j = referenced_name_end_at(s, i);
    (j, Operand::Label(text.substring_char(i, j)))
}

/// An optional operand at `i`.
pub fn operand_at<'a>(text: &'a str, s: &Vec<char>, i: usize) -> (r: (usize, Option<Operand<'a>>))
    requires
        source(text, s),
        i <= s.len(),
    ensures
        (r.0 as int, r.1.deep_view()) == spec_operand(s@, i as int),
        i <= r.0 <= s.len(),
{
    let choice = match register_at(s, i, 'A', Operand::A) {
        Err(ParseError::Invalid) => match register_at(s, i, 'B', Operand::B) {
            Err(ParseError::Invalid) => match register_at(s, i, 'I', Operand::I) {
                Err(ParseError::Invalid) => match mem_at(s, i) {
                    Err(ParseError::Invalid) => match const_at(s, i) {
                        Err(ParseError::Invalid) => Ok(label_ref_at(text, s, i)),
                        other => other,
                    },
                    other => other,
                },
                other => other,
            },
            other => other,
        },
        other => other,
    };
    assert(value_result(choice) == operand_choice(s@, i as int));
    match choice {
        Ok((j, op)) => (j, Some(op)),
        Err(_) => (i, None),
    }
}

/// A label declaration at `i`.
pub fn label_declaration_at<'a>(text: &'a str, s: &Vec<char>, i: usize) -> (r: Result<
    (usize, Statement<'a>),
    ParseError,
>)
    requires
        source(text, s),
        i <= s.len(),
    ensures
        value_result(r) == spec_label_declaration(s@, i as int),
        r matches Ok((j, _)) ==> i < j <= s.len(),
{
    let k = match declared_name_end_at(s, i) {
        Some(k) => k,
        None => {
            return Err(ParseError::Incomplete);
        },
    };
    proof {
        lemma_declared_name_end_within(s@, i as int);
    }
    let m = blank_end_at(s, k);
    let c = match tag_char_at(s, m, ':') {
        Ok(c) => c,
        Err(e) => {
            return Err(e);
        },
    };
    match end_of_statement_at(s, c) {
        Ok(e) => Ok((e, Statement::Label(text.substring_char(i, k)))),
        Err(e) => Err(e),
    }
}

/// An instruction alone on its line at `i`.
pub fn no_operand_op_at<'a>(s: &Vec<char>, i: usize) -> (r: Result<
    (usize, Statement<'a>),
    ParseError,
>)
    requires
        i <= s.len(),
    ensures
        value_result(r) == spec_no_operand_op(s@, i as int),
        r matches Ok((j, _)) ==> i < j <= s.len(),
{
    let (j, ins) = match instruction_at_pos(s, i) {
        Ok(res) => res,
        Err(e) => {
            return Err(e);
        },
    };
    match end_of_statement_at(s, j) {
        Ok(k) => Ok((k, Statement::Operation(ins, None, None))),
        Err(e) => Err(e),
    }
}

/// An instruction with one operand at `i`.
pub fn single_operand_op_at<'a>(text: &'a str, s: &Vec<char>, i: usize) -> (r: Result<
    (usize, Statement<'a>),
    ParseError,
>)
    requires
        source(text, s),
        i <= s.len(),
    ensures
        value_result(r) == spec_single_operand_op(s@, i as int),
        r matches Ok((j, _)) ==> i < j <= s.len(),
{
    let (j, ins) = match instruction_at_pos(s, i) {
        Ok(res) => res,
        Err(e) => {
            return Err(e);
        },
    };
    let m = blank_end_at(s, j);
    if m == j {
        return Err(ParseError::Invalid);
    }
    let (p, op) = operand_at(text, s, m);
    match end_of_statement_at(s, p) {
        Ok(k) => Ok((k, Statement::Operation(ins, op, None))),
        Err(e) => Err(e),
    }
}

/// An instruction with two operands at `i`.
pub fn dual_operand_op_at<'a>(text: &'a str, s: &Vec<char>, i: usize) -> (r: Result<
    (usize, Statement<'a>),
    ParseError,
>)
    requires
        source(text, s),
        i <= s.len(),
    ensures
        value_result(r) == spec_dual_operand_op(s@, i as int),
        r matches Ok((j, _)) ==> i < j <= s.len(),
{
    let (j, ins) = match instruction_at_pos(s, i) {
        Ok(res) => res,
        Err(e) => {
            return Err(e);
        },
    };
    let m = blank_end_at(s, j);
    if m == j {
        return Err(ParseError::Invalid);
    }
    let (p, first) = operand_at(text, s, m);
    let b = blank_end_at(s, p);
    let q = match tag_char_at(s, b, ',') {
        Ok(q) => q,
        Err(e) => {
            return Err(e);
        },
    };
    let t = blank_end_at(s, q);
    let (u, second) = operand_at(text, s, t);
    match end_of_statement_at(s, u) {
        Ok(k) => Ok((k, Statement::Operation(ins, first, second))),
        Err(e) => Err(e),
    }
}

/// An operation at `i`.
pub fn operation_at<'a>(text: &'a str, s: &Vec<char>, i: usize) -> (r: Result<
    (usize, Statement<'a>),
    ParseError,
>)
    requires
        source(text, s),
        i <= s.len(),
    ensures
        value_result(r) == spec_operation(s@, i as int),
        r matches Ok((j, _)) ==> i < j <= s.len(),
{
    match no_operand_op_at(s, i) {
        Err(ParseError::Invalid) => match single_operand_op_at(text, s, i) {
            Err(ParseError::Invalid) => dual_operand_op_at(text, s, i),
            other => other,
        },
        other => other,
    }
}

/// A statement at `i`.
pub fn statement_at<'a>(text: &'a str, s: &Vec<char>, i: usize) -> (r: Result<
    (usize, Statement<'a>),
    ParseError,
>)
    requires
        source(text, s),
        i <= s.len(),
    ensures
        value_result(r) == spec_statement(s@, i as int),
        r matches Ok((j, _)) ==> i < j <= s.len(),
{
    let b = blank_end_at(s, i);
    match operation_at(text, s, b) {
        Err(ParseError::Invalid) => label_declaration_at(text, s, b),
        other => other,
    }
}

/// Statements from `i` on, as long as they parse.
pub fn statements_at<'a>(text: &'a str, s: &Vec<char>, i: usize) -> (r: (usize, Vec<Statement<'a>>))
    requires
        source(text, s),
        i <= s.len(),
    ensures
        spec_statements(s@, i as int) == Ok::<(int, Seq<SpecStatement>), ParseError>(
            (r.0 as int, r.1.deep_view()),
        ),
        i <= r.0 <= s.len(),
{
    let mut statements: Vec<Statement<'a>> = Vec::new();
    let mut pos = i;
    proof {
        lemma_statements_succeed(s@, i as int);
    }
    loop
        invariant
            source(text, s),
            i <= pos <= s.len(),
            spec_statements(s@, pos as int) matches Ok((k, rest)) && spec_statements(s@, i as int)
                == Ok::<(int, Seq<SpecStatement>), ParseError>((k, statements.deep_view() + rest)),
        decreases s.len() - pos,
    {
        proof {
            lemma_statements_succeed(s@, pos as int);
        }
        match statement_at(text, s, pos) {
            Ok((j, st)) => {
                let ghost before = statements.deep_view();
                let ghost tail = spec_statements(s@, j as int);
                statements.push(st);
                assert(statements.deep_view() =~= before.push(st.deep_view()));
                proof {
                    lemma_statements_succeed(s@, j as int);
                    let (k, rest) = tail->Ok_0;
                    assert(before + (seq![st.deep_view()] + rest) =~= statements.deep_view() + rest);
                }
                pos = j;
            },
            Err(_) => {
                assert(statements.deep_view() + Seq::<SpecStatement>::empty() =~= statements.deep_view());
                return (pos, statements);
            },
        }
    }
}

} // verus!
