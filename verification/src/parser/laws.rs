//! Laws of the grammar stated over the text itself: which words are read
//! as which instruction, which characters count as the same letter, and
//! which texts are constants of which value.
use vstd::prelude::*;

use super::grammar::{
    blank_end, declared_name_end, hex_digit_value, instruction_at, instruction_from,
    is_hex_digit, mnemonic, referenced_name_end, same_letter, spec_const, spec_dual_operand_op,
    spec_end_of_statement, spec_instruction, spec_label_ref, spec_operand, tag_no_case,
    ParseError,
};
use super::properties::lemma_instruction_within;
use super::types::SpecStatement;
use super::types::{Instruction, SpecOperand};

verus! {

/// The character at `j` is the lower-case letter `lower` or the capital
/// `upper`.
pub open spec fn letter_at(s: Seq<char>, j: int, lower: char, upper: char) -> bool {
    0 <= j < s.len() && (s[j] == lower || s[j] == upper)
}

/// A character is the same letter as a lower-case letter exactly when it is
/// that letter or the capital 32 code points before it.
pub proof fn law_same_letter(c: char, lower: char)
    requires
        'a' <= lower && lower <= 'z',
    ensures
        same_letter(c, lower) <==> (c == lower || (c as u32) + 32 == (lower as u32)),
{
}

/// `c` written in either case matches the lower-case letter `x` only when
/// `x` is that letter.
proof fn lemma_letter_cases(c: char, lower: char, upper: char, x: char)
    requires
        c == lower || c == upper,
        'a' <= lower && lower <= 'z',
        (upper as u32) + 32 == (lower as u32),
        'a' <= x && x <= 'z',
    ensures
        same_letter(c, x) <==> x == lower,
{
    law_same_letter(c, x);
}

/// A word that differs at `k` from the text does not match there.
proof fn lemma_word_mismatch(s: Seq<char>, i: int, w: Seq<char>, k: int)
    requires
        0 <= i,
        0 <= k < w.len(),
        i + k < s.len(),
        !same_letter(s[i + k], w[k]),
    ensures
        tag_no_case(s, i, w) == Err::<int, ParseError>(ParseError::Invalid),
{
    assert(!same_letter(s[i + k], w[k]));
}

/// A word that the text spells, letter by letter, matches there.
proof fn lemma_word_match(s: Seq<char>, i: int, w: Seq<char>)
    requires
        0 <= i,
        i + w.len() <= s.len(),
        forall|k: int| 0 <= k < w.len() ==> same_letter(#[trigger] s[i + k], w[k]),
    ensures
        tag_no_case(s, i, w) == Ok::<int, ParseError>(i + w.len()),
{
}

/// `add`, in any case, is read as `Add`.
proof fn lemma_reads_add(s: Seq<char>, i: int)
    requires
        letter_at(s, i, 'a', 'A') && letter_at(s, i + 1, 'd', 'D') && letter_at(s, i + 2, 'd', 'D'),
    ensures
        spec_instruction(s, i) == Ok::<(int, Instruction), ParseError>((i + 3, Instruction::Add)),
{
    lemma_letter_cases(s[i], 'a', 'A', 'a');
    lemma_letter_cases(s[i + 1], 'd', 'D', 'd');
    lemma_letter_cases(s[i + 2], 'd', 'D', 'd');
    let w = mnemonic(instruction_at(0));
    assert(w =~= seq!['a', 'd', 'd']);
    assert forall|k: int| 0 <= k < w.len() implies same_letter(#[trigger] s[i + k], w[k]) by {
        if k == 0 {
        } else if k == 1 {
        } else {
        }
    }
    lemma_word_match(s, i, w);
}

/// `sub`, in any case, is read as `Sub`.
proof fn lemma_reads_sub(s: Seq<char>, i: int)
    requires
        letter_at(s, i, 's', 'S') && letter_at(s, i + 1, 'u', 'U') && letter_at(s, i + 2, 'b', 'B'),
    ensures
        spec_instruction(s, i) == Ok::<(int, Instruction), ParseError>((i + 3, Instruction::Sub)),
{
    lemma_letter_cases(s[i], 's', 'S', 'a');
    assert(mnemonic(instruction_at(0)) =~= seq!['a', 'd', 'd']);
    lemma_word_mismatch(s, i, mnemonic(instruction_at(0)), 0);
    assert(instruction_from(s, i, 0) == instruction_from(s, i, 1));
    lemma_letter_cases(s[i], 's', 'S', 's');
    lemma_letter_cases(s[i + 1], 'u', 'U', 'u');
    lemma_letter_cases(s[i + 2], 'b', 'B', 'b');
    let w = mnemonic(instruction_at(1));
    assert(w =~= seq!['s', 'u', 'b']);
    assert forall|k: int| 0 <= k < w.len() implies same_letter(#[trigger] s[i + k], w[k]) by {
        if k == 0 {
        } else if k == 1 {
        } else {
        }
    }
    lemma_word_match(s, i, w);
}

/// `cmp`, in any case, is read as `Cmp`.
proof fn lemma_reads_cmp(s: Seq<char>, i: int)
    requires
        letter_at(s, i, 'c', 'C') && letter_at(s, i + 1, 'm', 'M') && letter_at(s, i + 2, 'p', 'P'),
    ensures
        spec_instruction(s, i) == Ok::<(int, Instruction), ParseError>((i + 3, Instruction::Cmp)),
{
    lemma_letter_cases(s[i], 'c', 'C', 'a');
    assert(mnemonic(instruction_at(0)) =~= seq!['a', 'd', 'd']);
    lemma_word_mismatch(s, i, mnemonic(instruction_at(0)), 0);
    assert(instruction_from(s, i, 0) == instruction_from(s, i, 1));
    lemma_letter_cases(s[i], 'c', 'C', 's');
    assert(mnemonic(instruction_at(1)) =~= seq!['s', 'u', 'b']);
    lemma_word_mismatch(s, i, mnemonic(instruction_at(1)), 0);
    assert(instruction_from(s, i, 1) == instruction_from(s, i, 2));
    lemma_letter_cases(s[i], 'c', 'C', 'c');
    lemma_letter_cases(s[i + 1], 'm', 'M', 'm');
    lemma_letter_cases(s[i + 2], 'p', 'P', 'p');
    let w = mnemonic(instruction_at(2));
    assert(w =~= seq!['c', 'm', 'p']);
    assert forall|k: int| 0 <= k < w.len() implies same_letter(#[trigger] s[i + k], w[k]) by {
        if k == 0 {
        } else if k == 1 {
        } else {
        }
    }
    lemma_word_match(s, i, w);
}

/// `inc`, in any case, is read as `Inc`.
proof fn lemma_reads_inc(s: Seq<char>, i: int)
    requires
        letter_at(s, i, 'i', 'I') && letter_at(s, i + 1, 'n', 'N') && letter_at(s, i + 2, 'c', 'C'),
    ensures
        spec_instruction(s, i) == Ok::<(int, Instruction), ParseError>((i + 3, Instruction::Inc)),
{
    lemma_letter_cases(s[i], 'i', 'I', 'a');
    assert(mnemonic(instruction_at(0)) =~= seq!['a', 'd', 'd']);
    lemma_word_mismatch(s, i, mnemonic(instruction_at(0)), 0);
    assert(instruction_from(s, i, 0) == instruction_from(s, i, 1));
    lemma_letter_cases(s[i], 'i', 'I', 's');
    assert(mnemonic(instruction_at(1)) =~= seq!['s', 'u', 'b']);
    lemma_word_mismatch(s, i, mnemonic(instruction_at(1)), 0);
    assert(instruction_from(s, i, 1) == instruction_from(s, i, 2));
    lemma_letter_cases(s[i], 'i', 'I', 'c');
    assert(mnemonic(instruction_at(2)) =~= seq!['c', 'm', 'p']);
    lemma_word_mismatch(s, i, mnemonic(instruction_at(2)), 0);
    assert(instruction_from(s, i, 2) == instruction_from(s, i, 3));
    lemma_letter_cases(s[i], 'i', 'I', 'i');
    lemma_letter_cases(s[i + 1], 'n', 'N', 'n');
    lemma_letter_cases(s[i + 2], 'c', 'C', 'c');
    let w = mnemonic(instruction_at(3));
    assert(w =~= seq!['i', 'n', 'c']);
    assert forall|k: int| 0 <= k < w.len() implies same_letter(#[trigger] s[i + k], w[k]) by {
        if k == 0 {
        } else if k == 1 {
        } else {
        }
    }
    lemma_word_match(s, i, w);
}

/// `dec`, in any case, is read as `Dec`.
proof fn lemma_reads_dec(s: Seq<char>, i: int)
    requires
        letter_at(s, i, 'd', 'D') && letter_at(s, i + 1, 'e', 'E') && letter_at(s, i + 2, 'c', 'C'),
    ensures
        spec_instruction(s, i) == Ok::<(int, Instruction), ParseError>((i + 3, Instruction::Dec)),
{
    lemma_letter_cases(s[i], 'd', 'D', 'a');
    assert(mnemonic(instruction_at(0)) =~= seq!['a', 'd', 'd']);
    lemma_word_mismatch(s, i, mnemonic(instruction_at(0)), 0);
    assert(instruction_from(s, i, 0) == instruction_from(s, i, 1));
    lemma_letter_cases(s[i], 'd', 'D', 's');
    assert(mnemonic(instruction_at(1)) =~= seq!['s', 'u', 'b']);
    lemma_word_mismatch(s, i, mnemonic(instruction_at(1)), 0);
    assert(instruction_from(s, i, 1) == instruction_from(s, i, 2));
    lemma_letter_cases(s[i], 'd', 'D', 'c');
    assert(mnemonic(instruction_at(2)) =~= seq!['c', 'm', 'p']);
    lemma_word_mismatch(s, i, mnemonic(instruction_at(2)), 0);
    assert(instruction_from(s, i, 2) == instruction_from(s, i, 3));
    lemma_letter_cases(s[i], 'd', 'D', 'i');
    assert(mnemonic(instruction_at(3)) =~= seq!['i', 'n', 'c']);
    lemma_word_mismatch(s, i, mnemonic(instruction_at(3)), 0);
    assert(instruction_from(s, i, 3) == instruction_from(s, i, 4));
    lemma_letter_cases(s[i], 'd', 'D', 'd');
    lemma_letter_cases(s[i + 1], 'e', 'E', 'e');
    lemma_letter_cases(s[i + 2], 'c', 'C', 'c');
    let w = mnemonic(instruction_at(4));
    assert(w =~= seq!['d', 'e', 'c']);
    assert forall|k: int| 0 <= k < w.len() implies same_letter(#[trigger] s[i + k], w[k]) by {
        if k == 0 {
        } else if k == 1 {
        } else {
        }
    }
    lemma_word_match(s, i, w);
}

/// `and`, in any case, is read as `And`.
proof fn lemma_reads_and(s: Seq<char>, i: int)
    requires
        letter_at(s, i, 'a', 'A') && letter_at(s, i + 1, 'n', 'N') && letter_at(s, i + 2, 'd', 'D'),
    ensures
        spec_instruction(s, i) == Ok::<(int, Instruction), ParseError>((i + 3, Instruction::And)),
{
    lemma_letter_cases(s[i + 1], 'n', 'N', 'd');
    assert(mnemonic(instruction_at(0)) =~= seq!['a', 'd', 'd']);
    lemma_word_mismatch(s, i, mnemonic(instruction_at(0)), 1);
    assert(instruction_from(s, i, 0) == instruction_from(s, i, 1));
    lemma_letter_cases(s[i], 'a', 'A', 's');
    assert(mnemonic(instruction_at(1)) =~= seq!['s', 'u', 'b']);
    lemma_word_mismatch(s, i, mnemonic(instruction_at(1)), 0);
    assert(instruction_from(s, i, 1) == instruction_from(s, i, 2));
    lemma_letter_cases(s[i], 'a', 'A', 'c');
    assert(mnemonic(instruction_at(2)) =~= seq!['c', 'm', 'p']);
    lemma_word_mismatch(s, i, mnemonic(instruction_at(2)), 0);
    assert(instruction_from(s, i, 2) == instruction_from(s, i, 3));
    lemma_letter_cases(s[i], 'a', 'A', 'i');
    assert(mnemonic(instruction_at(3)) =~= seq!['i', 'n', 'c']);
    lemma_word_mismatch(s, i, mnemonic(instruction_at(3)), 0);
    assert(instruction_from(s, i, 3) == instruction_from(s, i, 4));
    lemma_letter_cases(s[i], 'a', 'A', 'd');
    assert(mnemonic(instruction_at(4)) =~= seq!['d', 'e', 'c']);
    lemma_word_mismatch(s, i, mnemonic(instruction_at(4)), 0);
    assert(instruction_from(s, i, 4) == instruction_from(s, i, 5));
    lemma_letter_cases(s[i], 'a', 'A', 'a');
    lemma_letter_cases(s[i + 1], 'n', 'N', 'n');
    lemma_letter_cases(s[i + 2], 'd', 'D', 'd');
    let w = mnemonic(instruction_at(5));
    assert(w =~= seq!['a', 'n', 'd']);
    assert forall|k: int| 0 <= k < w.len() implies same_letter(#[trigger] s[i + k], w[k]) by {
        if k == 0 {
        } else if k == 1 {
        } else {
        }
    }
    lemma_word_match(s, i, w);
}

/// `or`, in any case, is read as `Or`.
proof fn lemma_reads_or(s: Seq<char>, i: int)
    requires
        letter_at(s, i, 'o', 'O') && letter_at(s, i + 1, 'r', 'R'),
    ensures
        spec_instruction(s, i) == Ok::<(int, Instruction), ParseError>((i + 2, Instruction::Or)),
{
    lemma_letter_cases(s[i], 'o', 'O', 'a');
    assert(mnemonic(instruction_at(0)) =~= seq!['a', 'd', 'd']);
    lemma_word_mismatch(s, i, mnemonic(instruction_at(0)), 0);
    assert(instruction_from(s, i, 0) == instruction_from(s, i, 1));
    lemma_letter_cases(s[i], 'o', 'O', 's');
    assert(mnemonic(instruction_at(1)) =~= seq!['s', 'u', 'b']);
    lemma_word_mismatch(s, i, mnemonic(instruction_at(1)), 0);
    assert(instruction_from(s, i, 1) == instruction_from(s, i, 2));
    lemma_letter_cases(s[i], 'o', 'O', 'c');
    assert(mnemonic(instruction_at(2)) =~= seq!['c', 'm', 'p']);
    lemma_word_mismatch(s, i, mnemonic(instruction_at(2)), 0);
    assert(instruction_from(s, i, 2) == instruction_from(s, i, 3));
    lemma_letter_cases(s[i], 'o', 'O', 'i');
    assert(mnemonic(instruction_at(3)) =~= seq!['i', 'n', 'c']);
    lemma_word_mismatch(s, i, mnemonic(instruction_at(3)), 0);
    assert(instruction_from(s, i, 3) == instruction_from(s, i, 4));
    lemma_letter_cases(s[i], 'o', 'O', 'd');
    assert(mnemonic(instruction_at(4)) =~= seq!['d', 'e', 'c']);
    lemma_word_mismatch(s, i, mnemonic(instruction_at(4)), 0);
    assert(instruction_from(s, i, 4) == instruction_from(s, i, 5));
    lemma_letter_cases(s[i], 'o', 'O', 'a');
    assert(mnemonic(instruction_at(5)) =~= seq!['a', 'n', 'd']);
    lemma_word_mismatch(s, i, mnemonic(instruction_at(5)), 0);
    assert(instruction_from(s, i, 5) == instruction_from(s, i, 6));
    lemma_letter_cases(s[i], 'o', 'O', 'o');
    lemma_letter_cases(s[i + 1], 'r', 'R', 'r');
    let w = mnemonic(instruction_at(6));
    assert(w =~= seq!['o', 'r']);
    assert forall|k: int| 0 <= k < w.len() implies same_letter(#[trigger] s[i + k], w[k]) by {
        if k == 0 {
        } else {
        }
    }
    lemma_word_match(s, i, w);
}

/// `not`, in any case, is read as `Not`.
proof fn lemma_reads_not(s: Seq<char>, i: int)
    requires
        letter_at(s, i, 'n', 'N') && letter_at(s, i + 1, 'o', 'O') && letter_at(s, i + 2, 't', 'T'),
    ensures
        spec_instruction(s, i) == Ok::<(int, Instruction), ParseError>((i + 3, Instruction::Not)),
{
    lemma_letter_cases(s[i], 'n', 'N', 'a');
    assert(mnemonic(instruction_at(0)) =~= seq!['a', 'd', 'd']);
    lemma_word_mismatch(s, i, mnemonic(instruction_at(0)), 0);
    assert(instruction_from(s, i, 0) == instruction_from(s, i, 1));
    lemma_letter_cases(s[i], 'n', 'N', 's');
    assert(mnemonic(instruction_at(1)) =~= seq!['s', 'u', 'b']);
    lemma_word_mismatch(s, i, mnemonic(instruction_at(1)), 0);
    assert(instruction_from(s, i, 1) == instruction_from(s, i, 2));
    lemma_letter_cases(s[i], 'n', 'N', 'c');
    assert(mnemonic(instruction_at(2)) =~= seq!['c', 'm', 'p']);
    lemma_word_mismatch(s, i, mnemonic(instruction_at(2)), 0);
    assert(instruction_from(s, i, 2) == instruction_from(s, i, 3));
    lemma_letter_cases(s[i], 'n', 'N', 'i');
    assert(mnemonic(instruction_at(3)) =~= seq!['i', 'n', 'c']);
    lemma_word_mismatch(s, i, mnemonic(instruction_at(3)), 0);
    assert(instruction_from(s, i, 3) == instruction_from(s, i, 4));
    lemma_letter_cases(s[i], 'n', 'N', 'd');
    assert(mnemonic(instruction_at(4)) =~= seq!['d', 'e', 'c']);
    lemma_word_mismatch(s, i, mnemonic(instruction_at(4)), 0);
    assert(instruction_from(s, i, 4) == instruction_from(s, i, 5));
    lemma_letter_cases(s[i], 'n', 'N', 'a');
    assert(mnemonic(instruction_at(5)) =~= seq!['a', 'n', 'd']);
    lemma_word_mismatch(s, i, mnemonic(instruction_at(5)), 0);
    assert(instruction_from(s, i, 5) == instruction_from(s, i, 6));
    lemma_letter_cases(s[i], 'n', 'N', 'o');
    assert(mnemonic(instruction_at(6)) =~= seq!['o', 'r']);
    lemma_word_mismatch(s, i, mnemonic(instruction_at(6)), 0);
    assert(instruction_from(s, i, 6) == instruction_from(s, i, 7));
    lemma_letter_cases(s[i], 'n', 'N', 'n');
    lemma_letter_cases(s[i + 1], 'o', 'O', 'o');
    lemma_letter_cases(s[i + 2], 't', 'T', 't');
    let w = mnemonic(instruction_at(7));
    assert(w =~= seq!['n', 'o', 't']);
    assert forall|k: int| 0 <= k < w.len() implies same_letter(#[trigger] s[i + k], w[k]) by {
        if k == 0 {
        } else if k == 1 {
        } else {
        }
    }
    lemma_word_match(s, i, w);
}

/// `shr`, in any case, is read as `Shr`.
proof fn lemma_reads_shr(s: Seq<char>, i: int)
    requires
        letter_at(s, i, 's', 'S') && letter_at(s, i + 1, 'h', 'H') && letter_at(s, i + 2, 'r', 'R'),
    ensures
        spec_instruction(s, i) == Ok::<(int, Instruction), ParseError>((i + 3, Instruction::Shr)),
{
    lemma_letter_cases(s[i], 's', 'S', 'a');
    assert(mnemonic(instruction_at(0)) =~= seq!['a', 'd', 'd']);
    lemma_word_mismatch(s, i, mnemonic(instruction_at(0)), 0);
    assert(instruction_from(s, i, 0) == instruction_from(s, i, 1));
    lemma_letter_cases(s[i + 1], 'h', 'H', 'u');
    assert(mnemonic(instruction_at(1)) =~= seq!['s', 'u', 'b']);
    lemma_word_mismatch(s, i, mnemonic(instruction_at(1)), 1);
    assert(instruction_from(s, i, 1) == instruction_from(s, i, 2));
    lemma_letter_cases(s[i], 's', 'S', 'c');
    assert(mnemonic(instruction_at(2)) =~= seq!['c', 'm', 'p']);
    lemma_word_mismatch(s, i, mnemonic(instruction_at(2)), 0);
    assert(instruction_from(s, i, 2) == instruction_from(s, i, 3));
    lemma_letter_cases(s[i], 's', 'S', 'i');
    assert(mnemonic(instruction_at(3)) =~= seq!['i', 'n', 'c']);
    lemma_word_mismatch(s, i, mnemonic(instruction_at(3)), 0);
    assert(instruction_from(s, i, 3) == instruction_from(s, i, 4));
    lemma_letter_cases(s[i], 's', 'S', 'd');
    assert(mnemonic(instruction_at(4)) =~= seq!['d', 'e', 'c']);
    lemma_word_mismatch(s, i, mnemonic(instruction_at(4)), 0);
    assert(instruction_from(s, i, 4) == instruction_from(s, i, 5));
    lemma_letter_cases(s[i], 's', 'S', 'a');
    assert(mnemonic(instruction_at(5)) =~= seq!['a', 'n', 'd']);
    lemma_word_mismatch(s, i, mnemonic(instruction_at(5)), 0);
    assert(instruction_from(s, i, 5) == instruction_from(s, i, 6));
    lemma_letter_cases(s[i], 's', 'S', 'o');
    assert(mnemonic(instruction_at(6)) =~= seq!['o', 'r']);
    lemma_word_mismatch(s, i, mnemonic(instruction_at(6)), 0);
    assert(instruction_from(s, i, 6) == instruction_from(s, i, 7));
    lemma_letter_cases(s[i], 's', 'S', 'n');
    assert(mnemonic(instruction_at(7)) =~= seq!['n', 'o', 't']);
    lemma_word_mismatch(s, i, mnemonic(instruction_at(7)), 0);
    assert(instruction_from(s, i, 7) == instruction_from(s, i, 8));
    lemma_letter_cases(s[i], 's', 'S', 's');
    lemma_letter_cases(s[i + 1], 'h', 'H', 'h');
    lemma_letter_cases(s[i + 2], 'r', 'R', 'r');
    let w = mnemonic(instruction_at(8));
    assert(w =~= seq!['s', 'h', 'r']);
    assert forall|k: int| 0 <= k < w.len() implies same_letter(#[trigger] s[i + k], w[k]) by {
        if k == 0 {
        } else if k == 1 {
        } else {
        }
    }
    lemma_word_match(s, i, w);
}

/// `shl`, in any case, is read as `Shl`.
proof fn lemma_reads_shl(s: Seq<char>, i: int)
    requires
        letter_at(s, i, 's', 'S') && letter_at(s, i + 1, 'h', 'H') && letter_at(s, i + 2, 'l', 'L'),
    ensures
        spec_instruction(s, i) == Ok::<(int, Instruction), ParseError>((i + 3, Instruction::Shl)),
{
    lemma_letter_cases(s[i], 's', 'S', 'a');
    assert(mnemonic(instruction_at(0)) =~= seq!['a', 'd', 'd']);
    lemma_word_mismatch(s, i, mnemonic(instruction_at(0)), 0);
    assert(instruction_from(s, i, 0) == instruction_from(s, i, 1));
    lemma_letter_cases(s[i + 1], 'h', 'H', 'u');
    assert(mnemonic(instruction_at(1)) =~= seq!['s', 'u', 'b']);
    lemma_word_mismatch(s, i, mnemonic(instruction_at(1)), 1);
    assert(instruction_from(s, i, 1) == instruction_from(s, i, 2));
    lemma_letter_cases(s[i], 's', 'S', 'c');
    assert(mnemonic(instruction_at(2)) =~= seq!['c', 'm', 'p']);
    lemma_word_mismatch(s, i, mnemonic(instruction_at(2)), 0);
    assert(instruction_from(s, i, 2) == instruction_from(s, i, 3));
    lemma_letter_cases(s[i], 's', 'S', 'i');
    assert(mnemonic(instruction_at(3)) =~= seq!['i', 'n', 'c']);
    lemma_word_mismatch(s, i, mnemonic(instruction_at(3)), 0);
    assert(instruction_from(s, i, 3) == instruction_from(s, i, 4));
    lemma_letter_cases(s[i], 's', 'S', 'd');
    assert(mnemonic(instruction_at(4)) =~= seq!['d', 'e', 'c']);
    lemma_word_mismatch(s, i, mnemonic(instruction_at(4)), 0);
    assert(instruction_from(s, i, 4) == instruction_from(s, i, 5));
    lemma_letter_cases(s[i], 's', 'S', 'a');
    assert(mnemonic(instruction_at(5)) =~= seq!['a', 'n', 'd']);
    lemma_word_mismatch(s, i, mnemonic(instruction_at(5)), 0);
    assert(instruction_from(s, i, 5) == instruction_from(s, i, 6));
    lemma_letter_cases(s[i], 's', 'S', 'o');
    assert(mnemonic(instruction_at(6)) =~= seq!['o', 'r']);
    lemma_word_mismatch(s, i, mnemonic(instruction_at(6)), 0);
    assert(instruction_from(s, i, 6) == instruction_from(s, i, 7));
    lemma_letter_cases(s[i], 's', 'S', 'n');
    assert(mnemonic(instruction_at(7)) =~= seq!['n', 'o', 't']);
    lemma_word_mismatch(s, i, mnemonic(instruction_at(7)), 0);
    assert(instruction_from(s, i, 7) == instruction_from(s, i, 8));
    lemma_letter_cases(s[i + 2], 'l', 'L', 'r');
    assert(mnemonic(instruction_at(8)) =~= seq!['s', 'h', 'r']);
    lemma_word_mismatch(s, i, mnemonic(instruction_at(8)), 2);
    assert(instruction_from(s, i, 8) == instruction_from(s, i, 9));
    lemma_letter_cases(s[i], 's', 'S', 's');
    lemma_letter_cases(s[i + 1], 'h', 'H', 'h');
    lemma_letter_cases(s[i + 2], 'l', 'L', 'l');
    let w = mnemonic(instruction_at(9));
    assert(w =~= seq!['s', 'h', 'l']);
    assert forall|k: int| 0 <= k < w.len() implies same_letter(#[trigger] s[i + k], w[k]) by {
        if k == 0 {
        } else if k == 1 {
        } else {
        }
    }
    lemma_word_match(s, i, w);
}

/// `jmp`, in any case, is read as `Jmp`.
proof fn lemma_reads_jmp(s: Seq<char>, i: int)
    requires
        letter_at(s, i, 'j', 'J') && letter_at(s, i + 1, 'm', 'M') && letter_at(s, i + 2, 'p', 'P'),
    ensures
        spec_instruction(s, i) == Ok::<(int, Instruction), ParseError>((i + 3, Instruction::Jmp)),
{
    lemma_letter_cases(s[i], 'j', 'J', 'a');
    assert(mnemonic(instruction_at(0)) =~= seq!['a', 'd', 'd']);
    lemma_word_mismatch(s, i, mnemonic(instruction_at(0)), 0);
    assert(instruction_from(s, i, 0) == instruction_from(s, i, 1));
    lemma_letter_cases(s[i], 'j', 'J', 's');
    assert(mnemonic(instruction_at(1)) =~= seq!['s', 'u', 'b']);
    lemma_word_mismatch(s, i, mnemonic(instruction_at(1)), 0);
    assert(instruction_from(s, i, 1) == instruction_from(s, i, 2));
    lemma_letter_cases(s[i], 'j', 'J', 'c');
    assert(mnemonic(instruction_at(2)) =~= seq!['c', 'm', 'p']);
    lemma_word_mismatch(s, i, mnemonic(instruction_at(2)), 0);
    assert(instruction_from(s, i, 2) == instruction_from(s, i, 3));
    lemma_letter_cases(s[i], 'j', 'J', 'i');
    assert(mnemonic(instruction_at(3)) =~= seq!['i', 'n', 'c']);
    lemma_word_mismatch(s, i, mnemonic(instruction_at(3)), 0);
    assert(instruction_from(s, i, 3) == instruction_from(s, i, 4));
    lemma_letter_cases(s[i], 'j', 'J', 'd');
    assert(mnemonic(instruction_at(4)) =~= seq!['d', 'e', 'c']);
    lemma_word_mismatch(s, i, mnemonic(instruction_at(4)), 0);
    assert(instruction_from(s, i, 4) == instruction_from(s, i, 5));
    lemma_letter_cases(s[i], 'j', 'J', 'a');
    assert(mnemonic(instruction_at(5)) =~= seq!['a', 'n', 'd']);
    lemma_word_mismatch(s, i, mnemonic(instruction_at(5)), 0);
    assert(instruction_from(s, i, 5) == instruction_from(s, i, 6));
    lemma_letter_cases(s[i], 'j', 'J', 'o');
    assert(mnemonic(instruction_at(6)) =~= seq!['o', 'r']);
    lemma_word_mismatch(s, i, mnemonic(instruction_at(6)), 0);
    assert(instruction_from(s, i, 6) == instruction_from(s, i, 7));
    lemma_letter_cases(s[i], 'j', 'J', 'n');
    assert(mnemonic(instruction_at(7)) =~= seq!['n', 'o', 't']);
    lemma_word_mismatch(s, i, mnemonic(instruction_at(7)), 0);
    assert(instruction_from(s, i, 7) == instruction_from(s, i, 8));
    lemma_letter_cases(s[i], 'j', 'J', 's');
    assert(mnemonic(instruction_at(8)) =~= seq!['s', 'h', 'r']);
    lemma_word_mismatch(s, i, mnemonic(instruction_at(8)), 0);
    assert(instruction_from(s, i, 8) == instruction_from(s, i, 9));
    lemma_letter_cases(s[i], 'j', 'J', 's');
    assert(mnemonic(instruction_at(9)) =~= seq!['s', 'h', 'l']);
    lemma_word_mismatch(s, i, mnemonic(instruction_at(9)), 0);
    assert(instruction_from(s, i, 9) == instruction_from(s, i, 10));
    lemma_letter_cases(s[i], 'j', 'J', 'j');
    lemma_letter_cases(s[i + 1], 'm', 'M', 'm');
    lemma_letter_cases(s[i + 2], 'p', 'P', 'p');
    let w = mnemonic(instruction_at(10));
    assert(w =~= seq!['j', 'm', 'p']);
    assert forall|k: int| 0 <= k < w.len() implies same_letter(#[trigger] s[i + k], w[k]) by {
        if k == 0 {
        } else if k == 1 {
        } else {
        }
    }
    lemma_word_match(s, i, w);
}

/// `jz`, in any case, is read as `Jz`.
proof fn lemma_reads_jz(s: Seq<char>, i: int)
    requires
        letter_at(s, i, 'j', 'J') && letter_at(s, i + 1, 'z', 'Z'),
    ensures
        spec_instruction(s, i) == Ok::<(int, Instruction), ParseError>((i + 2, Instruction::Jz)),
{
    lemma_letter_cases(s[i], 'j', 'J', 'a');
    assert(mnemonic(instruction_at(0)) =~= seq!['a', 'd', 'd']);
    lemma_word_mismatch(s, i, mnemonic(instruction_at(0)), 0);
    assert(instruction_from(s, i, 0) == instruction_from(s, i, 1));
    lemma_letter_cases(s[i], 'j', 'J', 's');
    assert(mnemonic(instruction_at(1)) =~= seq!['s', 'u', 'b']);
    lemma_word_mismatch(s, i, mnemonic(instruction_at(1)), 0);
    assert(instruction_from(s, i, 1) == instruction_from(s, i, 2));
    lemma_letter_cases(s[i], 'j', 'J', 'c');
    assert(mnemonic(instruction_at(2)) =~= seq!['c', 'm', 'p']);
    lemma_word_mismatch(s, i, mnemonic(instruction_at(2)), 0);
    assert(instruction_from(s, i, 2) == instruction_from(s, i, 3));
    lemma_letter_cases(s[i], 'j', 'J', 'i');
    assert(mnemonic(instruction_at(3)) =~= seq!['i', 'n', 'c']);
    lemma_word_mismatch(s, i, mnemonic(instruction_at(3)), 0);
    assert(instruction_from(s, i, 3) == instruction_from(s, i, 4));
    lemma_letter_cases(s[i], 'j', 'J', 'd');
    assert(mnemonic(instruction_at(4)) =~= seq!['d', 'e', 'c']);
    lemma_word_mismatch(s, i, mnemonic(instruction_at(4)), 0);
    assert(instruction_from(s, i, 4) == instruction_from(s, i, 5));
    lemma_letter_cases(s[i], 'j', 'J', 'a');
    assert(mnemonic(instruction_at(5)) =~= seq!['a', 'n', 'd']);
    lemma_word_mismatch(s, i, mnemonic(instruction_at(5)), 0);
    assert(instruction_from(s, i, 5) == instruction_from(s, i, 6));
    lemma_letter_cases(s[i], 'j', 'J', 'o');
    assert(mnemonic(instruction_at(6)) =~= seq!['o', 'r']);
    lemma_word_mismatch(s, i, mnemonic(instruction_at(6)), 0);
    assert(instruction_from(s, i, 6) == instruction_from(s, i, 7));
    lemma_letter_cases(s[i], 'j', 'J', 'n');
    assert(mnemonic(instruction_at(7)) =~= seq!['n', 'o', 't']);
    lemma_word_mismatch(s, i, mnemonic(instruction_at(7)), 0);
    assert(instruction_from(s, i, 7) == instruction_from(s, i, 8));
    lemma_letter_cases(s[i], 'j', 'J', 's');
    assert(mnemonic(instruction_at(8)) =~= seq!['s', 'h', 'r']);
    lemma_word_mismatch(s, i, mnemonic(instruction_at(8)), 0);
    assert(instruction_from(s, i, 8) == instruction_from(s, i, 9));
    lemma_letter_cases(s[i], 'j', 'J', 's');
    assert(mnemonic(instruction_at(9)) =~= seq!['s', 'h', 'l']);
    lemma_word_mismatch(s, i, mnemonic(instruction_at(9)), 0);
    assert(instruction_from(s, i, 9) == instruction_from(s, i, 10));
    lemma_letter_cases(s[i + 1], 'z', 'Z', 'm');
    assert(mnemonic(instruction_at(10)) =~= seq!['j', 'm', 'p']);
    lemma_word_mismatch(s, i, mnemonic(instruction_at(10)), 1);
    assert(instruction_from(s, i, 10) == instruction_from(s, i, 11));
    lemma_letter_cases(s[i], 'j', 'J', 'j');
    lemma_letter_cases(s[i + 1], 'z', 'Z', 'z');
    let w = mnemonic(instruction_at(11));
    assert(w =~= seq!['j', 'z']);
    assert forall|k: int| 0 <= k < w.len() implies same_letter(#[trigger] s[i + k], w[k]) by {
        if k == 0 {
        } else {
        }
    }
    lemma_word_match(s, i, w);
}

/// `js`, in any case, is read as `Js`.
proof fn lemma_reads_js(s: Seq<char>, i: int)
    requires
        letter_at(s, i, 'j', 'J') && letter_at(s, i + 1, 's', 'S'),
    ensures
        spec_instruction(s, i) == Ok::<(int, Instruction), ParseError>((i + 2, Instruction::Js)),
{
    lemma_letter_cases(s[i], 'j', 'J', 'a');
    assert(mnemonic(instruction_at(0)) =~= seq!['a', 'd', 'd']);
    lemma_word_mismatch(s, i, mnemonic(instruction_at(0)), 0);
    assert(instruction_from(s, i, 0) == instruction_from(s, i, 1));
    lemma_letter_cases(s[i], 'j', 'J', 's');
    assert(mnemonic(instruction_at(1)) =~= seq!['s', 'u', 'b']);
    lemma_word_mismatch(s, i, mnemonic(instruction_at(1)), 0);
    assert(instruction_from(s, i, 1) == instruction_from(s, i, 2));
    lemma_letter_cases(s[i], 'j', 'J', 'c');
    assert(mnemonic(instruction_at(2)) =~= seq!['c', 'm', 'p']);
    lemma_word_mismatch(s, i, mnemonic(instruction_at(2)), 0);
    assert(instruction_from(s, i, 2) == instruction_from(s, i, 3));
    lemma_letter_cases(s[i], 'j', 'J', 'i');
    assert(mnemonic(instruction_at(3)) =~= seq!['i', 'n', 'c']);
    lemma_word_mismatch(s, i, mnemonic(instruction_at(3)), 0);
    assert(instruction_from(s, i, 3) == instruction_from(s, i, 4));
    lemma_letter_cases(s[i], 'j', 'J', 'd');
    assert(mnemonic(instruction_at(4)) =~= seq!['d', 'e', 'c']);
    lemma_word_mismatch(s, i, mnemonic(instruction_at(4)), 0);
    assert(instruction_from(s, i, 4) == instruction_from(s, i, 5));
    lemma_letter_cases(s[i], 'j', 'J', 'a');
    assert(mnemonic(instruction_at(5)) =~= seq!['a', 'n', 'd']);
    lemma_word_mismatch(s, i, mnemonic(instruction_at(5)), 0);
    assert(instruction_from(s, i, 5) == instruction_from(s, i, 6));
    lemma_letter_cases(s[i], 'j', 'J', 'o');
    assert(mnemonic(instruction_at(6)) =~= seq!['o', 'r']);
    lemma_word_mismatch(s, i, mnemonic(instruction_at(6)), 0);
    assert(instruction_from(s, i, 6) == instruction_from(s, i, 7));
    lemma_letter_cases(s[i], 'j', 'J', 'n');
    assert(mnemonic(instruction_at(7)) =~= seq!['n', 'o', 't']);
    lemma_word_mismatch(s, i, mnemonic(instruction_at(7)), 0);
    assert(instruction_from(s, i, 7) == instruction_from(s, i, 8));
    lemma_letter_cases(s[i], 'j', 'J', 's');
    assert(mnemonic(instruction_at(8)) =~= seq!['s', 'h', 'r']);
    lemma_word_mismatch(s, i, mnemonic(instruction_at(8)), 0);
    assert(instruction_from(s, i, 8) == instruction_from(s, i, 9));
    lemma_letter_cases(s[i], 'j', 'J', 's');
    assert(mnemonic(instruction_at(9)) =~= seq!['s', 'h', 'l']);
    lemma_word_mismatch(s, i, mnemonic(instruction_at(9)), 0);
    assert(instruction_from(s, i, 9) == instruction_from(s, i, 10));
    lemma_letter_cases(s[i + 1], 's', 'S', 'm');
    assert(mnemonic(instruction_at(10)) =~= seq!['j', 'm', 'p']);
    lemma_word_mismatch(s, i, mnemonic(instruction_at(10)), 1);
    assert(instruction_from(s, i, 10) == instruction_from(s, i, 11));
    lemma_letter_cases(s[i + 1], 's', 'S', 'z');
    assert(mnemonic(instruction_at(11)) =~= seq!['j', 'z']);
    lemma_word_mismatch(s, i, mnemonic(instruction_at(11)), 1);
    assert(instruction_from(s, i, 11) == instruction_from(s, i, 12));
    lemma_letter_cases(s[i], 'j', 'J', 'j');
    lemma_letter_cases(s[i + 1], 's', 'S', 's');
    let w = mnemonic(instruction_at(12));
    assert(w =~= seq!['j', 's']);
    assert forall|k: int| 0 <= k < w.len() implies same_letter(#[trigger] s[i + k], w[k]) by {
        if k == 0 {
        } else {
        }
    }
    lemma_word_match(s, i, w);
}

/// `jc`, in any case, is read as `Jc`.
proof fn lemma_reads_jc(s: Seq<char>, i: int)
    requires
        letter_at(s, i, 'j', 'J') && letter_at(s, i + 1, 'c', 'C'),
    ensures
        spec_instruction(s, i) == Ok::<(int, Instruction), ParseError>((i + 2, Instruction::Jc)),
{
    lemma_letter_cases(s[i], 'j', 'J', 'a');
    assert(mnemonic(instruction_at(0)) =~= seq!['a', 'd', 'd']);
    lemma_word_mismatch(s, i, mnemonic(instruction_at(0)), 0);
    assert(instruction_from(s, i, 0) == instruction_from(s, i, 1));
    lemma_letter_cases(s[i], 'j', 'J', 's');
    assert(mnemonic(instruction_at(1)) =~= seq!['s', 'u', 'b']);
    lemma_word_mismatch(s, i, mnemonic(instruction_at(1)), 0);
    assert(instruction_from(s, i, 1) == instruction_from(s, i, 2));
    lemma_letter_cases(s[i], 'j', 'J', 'c');
    assert(mnemonic(instruction_at(2)) =~= seq!['c', 'm', 'p']);
    lemma_word_mismatch(s, i, mnemonic(instruction_at(2)), 0);
    assert(instruction_from(s, i, 2) == instruction_from(s, i, 3));
    lemma_letter_cases(s[i], 'j', 'J', 'i');
    assert(mnemonic(instruction_at(3)) =~= seq!['i', 'n', 'c']);
    lemma_word_mismatch(s, i, mnemonic(instruction_at(3)), 0);
    assert(instruction_from(s, i, 3) == instruction_from(s, i, 4));
    lemma_letter_cases(s[i], 'j', 'J', 'd');
    assert(mnemonic(instruction_at(4)) =~= seq!['d', 'e', 'c']);
    lemma_word_mismatch(s, i, mnemonic(instruction_at(4)), 0);
    assert(instruction_from(s, i, 4) == instruction_from(s, i, 5));
    lemma_letter_cases(s[i], 'j', 'J', 'a');
    assert(mnemonic(instruction_at(5)) =~= seq!['a', 'n', 'd']);
    lemma_word_mismatch(s, i, mnemonic(instruction_at(5)), 0);
    assert(instruction_from(s, i, 5) == instruction_from(s, i, 6));
    lemma_letter_cases(s[i], 'j', 'J', 'o');
    assert(mnemonic(instruction_at(6)) =~= seq!['o', 'r']);
    lemma_word_mismatch(s, i, mnemonic(instruction_at(6)), 0);
    assert(instruction_from(s, i, 6) == instruction_from(s, i, 7));
    lemma_letter_cases(s[i], 'j', 'J', 'n');
    assert(mnemonic(instruction_at(7)) =~= seq!['n', 'o', 't']);
    lemma_word_mismatch(s, i, mnemonic(instruction_at(7)), 0);
    assert(instruction_from(s, i, 7) == instruction_from(s, i, 8));
    lemma_letter_cases(s[i], 'j', 'J', 's');
    assert(mnemonic(instruction_at(8)) =~= seq!['s', 'h', 'r']);
    lemma_word_mismatch(s, i, mnemonic(instruction_at(8)), 0);
    assert(instruction_from(s, i, 8) == instruction_from(s, i, 9));
    lemma_letter_cases(s[i], 'j', 'J', 's');
    assert(mnemonic(instruction_at(9)) =~= seq!['s', 'h', 'l']);
    lemma_word_mismatch(s, i, mnemonic(instruction_at(9)), 0);
    assert(instruction_from(s, i, 9) == instruction_from(s, i, 10));
    lemma_letter_cases(s[i + 1], 'c', 'C', 'm');
    assert(mnemonic(instruction_at(10)) =~= seq!['j', 'm', 'p']);
    lemma_word_mismatch(s, i, mnemonic(instruction_at(10)), 1);
    assert(instruction_from(s, i, 10) == instruction_from(s, i, 11));
    lemma_letter_cases(s[i + 1], 'c', 'C', 'z');
    assert(mnemonic(instruction_at(11)) =~= seq!['j', 'z']);
    lemma_word_mismatch(s, i, mnemonic(instruction_at(11)), 1);
    assert(instruction_from(s, i, 11) == instruction_from(s, i, 12));
    lemma_letter_cases(s[i + 1], 'c', 'C', 's');
    assert(mnemonic(instruction_at(12)) =~= seq!['j', 's']);
    lemma_word_mismatch(s, i, mnemonic(instruction_at(12)), 1);
    assert(instruction_from(s, i, 12) == instruction_from(s, i, 13));
    lemma_letter_cases(s[i], 'j', 'J', 'j');
    lemma_letter_cases(s[i + 1], 'c', 'C', 'c');
    let w = mnemonic(instruction_at(13));
    assert(w =~= seq!['j', 'c']);
    assert forall|k: int| 0 <= k < w.len() implies same_letter(#[trigger] s[i + k], w[k]) by {
        if k == 0 {
        } else {
        }
    }
    lemma_word_match(s, i, w);
}

/// `jo`, in any case, is read as `Jo`.
proof fn lemma_reads_jo(s: Seq<char>, i: int)
    requires
        letter_at(s, i, 'j', 'J') && letter_at(s, i + 1, 'o', 'O'),
    ensures
        spec_instruction(s, i) == Ok::<(int, Instruction), ParseError>((i + 2, Instruction::Jo)),
{
    lemma_letter_cases(s[i], 'j', 'J', 'a');
    assert(mnemonic(instruction_at(0)) =~= seq!['a', 'd', 'd']);
    lemma_word_mismatch(s, i, mnemonic(instruction_at(0)), 0);
    assert(instruction_from(s, i, 0) == instruction_from(s, i, 1));
    lemma_letter_cases(s[i], 'j', 'J', 's');
    assert(mnemonic(instruction_at(1)) =~= seq!['s', 'u', 'b']);
    lemma_word_mismatch(s, i, mnemonic(instruction_at(1)), 0);
    assert(instruction_from(s, i, 1) == instruction_from(s, i, 2));
    lemma_letter_cases(s[i], 'j', 'J', 'c');
    assert(mnemonic(instruction_at(2)) =~= seq!['c', 'm', 'p']);
    lemma_word_mismatch(s, i, mnemonic(instruction_at(2)), 0);
    assert(instruction_from(s, i, 2) == instruction_from(s, i, 3));
    lemma_letter_cases(s[i], 'j', 'J', 'i');
    assert(mnemonic(instruction_at(3)) =~= seq!['i', 'n', 'c']);
    lemma_word_mismatch(s, i, mnemonic(instruction_at(3)), 0);
    assert(instruction_from(s, i, 3) == instruction_from(s, i, 4));
    lemma_letter_cases(s[i], 'j', 'J', 'd');
    assert(mnemonic(instruction_at(4)) =~= seq!['d', 'e', 'c']);
    lemma_word_mismatch(s, i, mnemonic(instruction_at(4)), 0);
    assert(instruction_from(s, i, 4) == instruction_from(s, i, 5));
    lemma_letter_cases(s[i], 'j', 'J', 'a');
    assert(mnemonic(instruction_at(5)) =~= seq!['a', 'n', 'd']);
    lemma_word_mismatch(s, i, mnemonic(instruction_at(5)), 0);
    assert(instruction_from(s, i, 5) == instruction_from(s, i, 6));
    lemma_letter_cases(s[i], 'j', 'J', 'o');
    assert(mnemonic(instruction_at(6)) =~= seq!['o', 'r']);
    lemma_word_mismatch(s, i, mnemonic(instruction_at(6)), 0);
    assert(instruction_from(s, i, 6) == instruction_from(s, i, 7));
    lemma_letter_cases(s[i], 'j', 'J', 'n');
    assert(mnemonic(instruction_at(7)) =~= seq!['n', 'o', 't']);
    lemma_word_mismatch(s, i, mnemonic(instruction_at(7)), 0);
    assert(instruction_from(s, i, 7) == instruction_from(s, i, 8));
    lemma_letter_cases(s[i], 'j', 'J', 's');
    assert(mnemonic(instruction_at(8)) =~= seq!['s', 'h', 'r']);
    lemma_word_mismatch(s, i, mnemonic(instruction_at(8)), 0);
    assert(instruction_from(s, i, 8) == instruction_from(s, i, 9));
    lemma_letter_cases(s[i], 'j', 'J', 's');
    assert(mnemonic(instruction_at(9)) =~= seq!['s', 'h', 'l']);
    lemma_word_mismatch(s, i, mnemonic(instruction_at(9)), 0);
    assert(instruction_from(s, i, 9) == instruction_from(s, i, 10));
    lemma_letter_cases(s[i + 1], 'o', 'O', 'm');
    assert(mnemonic(instruction_at(10)) =~= seq!['j', 'm', 'p']);
    lemma_word_mismatch(s, i, mnemonic(instruction_at(10)), 1);
    assert(instruction_from(s, i, 10) == instruction_from(s, i, 11));
    lemma_letter_cases(s[i + 1], 'o', 'O', 'z');
    assert(mnemonic(instruction_at(11)) =~= seq!['j', 'z']);
    lemma_word_mismatch(s, i, mnemonic(instruction_at(11)), 1);
    assert(instruction_from(s, i, 11) == instruction_from(s, i, 12));
    lemma_letter_cases(s[i + 1], 'o', 'O', 's');
    assert(mnemonic(instruction_at(12)) =~= seq!['j', 's']);
    lemma_word_mismatch(s, i, mnemonic(instruction_at(12)), 1);
    assert(instruction_from(s, i, 12) == instruction_from(s, i, 13));
    lemma_letter_cases(s[i + 1], 'o', 'O', 'c');
    assert(mnemonic(instruction_at(13)) =~= seq!['j', 'c']);
    lemma_word_mismatch(s, i, mnemonic(instruction_at(13)), 1);
    assert(instruction_from(s, i, 13) == instruction_from(s, i, 14));
    lemma_letter_cases(s[i], 'j', 'J', 'j');
    lemma_letter_cases(s[i + 1], 'o', 'O', 'o');
    let w = mnemonic(instruction_at(14));
    assert(w =~= seq!['j', 'o']);
    assert forall|k: int| 0 <= k < w.len() implies same_letter(#[trigger] s[i + k], w[k]) by {
        if k == 0 {
        } else {
        }
    }
    lemma_word_match(s, i, w);
}

/// `jp`, in any case, is read as `Jp`.
proof fn lemma_reads_jp(s: Seq<char>, i: int)
    requires
        letter_at(s, i, 'j', 'J') && letter_at(s, i + 1, 'p', 'P'),
    ensures
        spec_instruction(s, i) == Ok::<(int, Instruction), ParseError>((i + 2, Instruction::Jp)),
{
    lemma_letter_cases(s[i], 'j', 'J', 'a');
    assert(mnemonic(instruction_at(0)) =~= seq!['a', 'd', 'd']);
    lemma_word_mismatch(s, i, mnemonic(instruction_at(0)), 0);
    assert(instruction_from(s, i, 0) == instruction_from(s, i, 1));
    lemma_letter_cases(s[i], 'j', 'J', 's');
    assert(mnemonic(instruction_at(1)) =~= seq!['s', 'u', 'b']);
    lemma_word_mismatch(s, i, mnemonic(instruction_at(1)), 0);
    assert(instruction_from(s, i, 1) == instruction_from(s, i, 2));
    lemma_letter_cases(s[i], 'j', 'J', 'c');
    assert(mnemonic(instruction_at(2)) =~= seq!['c', 'm', 'p']);
    lemma_word_mismatch(s, i, mnemonic(instruction_at(2)), 0);
    assert(instruction_from(s, i, 2) == instruction_from(s, i, 3));
    lemma_letter_cases(s[i], 'j', 'J', 'i');
    assert(mnemonic(instruction_at(3)) =~= seq!['i', 'n', 'c']);
    lemma_word_mismatch(s, i, mnemonic(instruction_at(3)), 0);
    assert(instruction_from(s, i, 3) == instruction_from(s, i, 4));
    lemma_letter_cases(s[i], 'j', 'J', 'd');
    assert(mnemonic(instruction_at(4)) =~= seq!['d', 'e', 'c']);
    lemma_word_mismatch(s, i, mnemonic(instruction_at(4)), 0);
    assert(instruction_from(s, i, 4) == instruction_from(s, i, 5));
    lemma_letter_cases(s[i], 'j', 'J', 'a');
    assert(mnemonic(instruction_at(5)) =~= seq!['a', 'n', 'd']);
    lemma_word_mismatch(s, i, mnemonic(instruction_at(5)), 0);
    assert(instruction_from(s, i, 5) == instruction_from(s, i, 6));
    lemma_letter_cases(s[i], 'j', 'J', 'o');
    assert(mnemonic(instruction_at(6)) =~= seq!['o', 'r']);
    lemma_word_mismatch(s, i, mnemonic(instruction_at(6)), 0);
    assert(instruction_from(s, i, 6) == instruction_from(s, i, 7));
    lemma_letter_cases(s[i], 'j', 'J', 'n');
    assert(mnemonic(instruction_at(7)) =~= seq!['n', 'o', 't']);
    lemma_word_mismatch(s, i, mnemonic(instruction_at(7)), 0);
    assert(instruction_from(s, i, 7) == instruction_from(s, i, 8));
    lemma_letter_cases(s[i], 'j', 'J', 's');
    assert(mnemonic(instruction_at(8)) =~= seq!['s', 'h', 'r']);
    lemma_word_mismatch(s, i, mnemonic(instruction_at(8)), 0);
    assert(instruction_from(s, i, 8) == instruction_from(s, i, 9));
    lemma_letter_cases(s[i], 'j', 'J', 's');
    assert(mnemonic(instruction_at(9)) =~= seq!['s', 'h', 'l']);
    lemma_word_mismatch(s, i, mnemonic(instruction_at(9)), 0);
    assert(instruction_from(s, i, 9) == instruction_from(s, i, 10));
    lemma_letter_cases(s[i + 1], 'p', 'P', 'm');
    assert(mnemonic(instruction_at(10)) =~= seq!['j', 'm', 'p']);
    lemma_word_mismatch(s, i, mnemonic(instruction_at(10)), 1);
    assert(instruction_from(s, i, 10) == instruction_from(s, i, 11));
    lemma_letter_cases(s[i + 1], 'p', 'P', 'z');
    assert(mnemonic(instruction_at(11)) =~= seq!['j', 'z']);
    lemma_word_mismatch(s, i, mnemonic(instruction_at(11)), 1);
    assert(instruction_from(s, i, 11) == instruction_from(s, i, 12));
    lemma_letter_cases(s[i + 1], 'p', 'P', 's');
    assert(mnemonic(instruction_at(12)) =~= seq!['j', 's']);
    lemma_word_mismatch(s, i, mnemonic(instruction_at(12)), 1);
    assert(instruction_from(s, i, 12) == instruction_from(s, i, 13));
    lemma_letter_cases(s[i + 1], 'p', 'P', 'c');
    assert(mnemonic(instruction_at(13)) =~= seq!['j', 'c']);
    lemma_word_mismatch(s, i, mnemonic(instruction_at(13)), 1);
    assert(instruction_from(s, i, 13) == instruction_from(s, i, 14));
    lemma_letter_cases(s[i + 1], 'p', 'P', 'o');
    assert(mnemonic(instruction_at(14)) =~= seq!['j', 'o']);
    lemma_word_mismatch(s, i, mnemonic(instruction_at(14)), 1);
    assert(instruction_from(s, i, 14) == instruction_from(s, i, 15));
    lemma_letter_cases(s[i], 'j', 'J', 'j');
    lemma_letter_cases(s[i + 1], 'p', 'P', 'p');
    let w = mnemonic(instruction_at(15));
    assert(w =~= seq!['j', 'p']);
    assert forall|k: int| 0 <= k < w.len() implies same_letter(#[trigger] s[i + k], w[k]) by {
        if k == 0 {
        } else {
        }
    }
    lemma_word_match(s, i, w);
}

/// `mov`, in any case, is read as `Mov`.
proof fn lemma_reads_mov(s: Seq<char>, i: int)
    requires
        letter_at(s, i, 'm', 'M') && letter_at(s, i + 1, 'o', 'O') && letter_at(s, i + 2, 'v', 'V'),
    ensures
        spec_instruction(s, i) == Ok::<(int, Instruction), ParseError>((i + 3, Instruction::Mov)),
{
    lemma_letter_cases(s[i], 'm', 'M', 'a');
    assert(mnemonic(instruction_at(0)) =~= seq!['a', 'd', 'd']);
    lemma_word_mismatch(s, i, mnemonic(instruction_at(0)), 0);
    assert(instruction_from(s, i, 0) == instruction_from(s, i, 1));
    lemma_letter_cases(s[i], 'm', 'M', 's');
    assert(mnemonic(instruction_at(1)) =~= seq!['s', 'u', 'b']);
    lemma_word_mismatch(s, i, mnemonic(instruction_at(1)), 0);
    assert(instruction_from(s, i, 1) == instruction_from(s, i, 2));
    lemma_letter_cases(s[i], 'm', 'M', 'c');
    assert(mnemonic(instruction_at(2)) =~= seq!['c', 'm', 'p']);
    lemma_word_mismatch(s, i, mnemonic(instruction_at(2)), 0);
    assert(instruction_from(s, i, 2) == instruction_from(s, i, 3));
    lemma_letter_cases(s[i], 'm', 'M', 'i');
    assert(mnemonic(instruction_at(3)) =~= seq!['i', 'n', 'c']);
    lemma_word_mismatch(s, i, mnemonic(instruction_at(3)), 0);
    assert(instruction_from(s, i, 3) == instruction_from(s, i, 4));
    lemma_letter_cases(s[i], 'm', 'M', 'd');
    assert(mnemonic(instruction_at(4)) =~= seq!['d', 'e', 'c']);
    lemma_word_mismatch(s, i, mnemonic(instruction_at(4)), 0);
    assert(instruction_from(s, i, 4) == instruction_from(s, i, 5));
    lemma_letter_cases(s[i], 'm', 'M', 'a');
    assert(mnemonic(instruction_at(5)) =~= seq!['a', 'n', 'd']);
    lemma_word_mismatch(s, i, mnemonic(instruction_at(5)), 0);
    assert(instruction_from(s, i, 5) == instruction_from(s, i, 6));
    lemma_letter_cases(s[i], 'm', 'M', 'o');
    assert(mnemonic(instruction_at(6)) =~= seq!['o', 'r']);
    lemma_word_mismatch(s, i, mnemonic(instruction_at(6)), 0);
    assert(instruction_from(s, i, 6) == instruction_from(s, i, 7));
    lemma_letter_cases(s[i], 'm', 'M', 'n');
    assert(mnemonic(instruction_at(7)) =~= seq!['n', 'o', 't']);
    lemma_word_mismatch(s, i, mnemonic(instruction_at(7)), 0);
    assert(instruction_from(s, i, 7) == instruction_from(s, i, 8));
    lemma_letter_cases(s[i], 'm', 'M', 's');
    assert(mnemonic(instruction_at(8)) =~= seq!['s', 'h', 'r']);
    lemma_word_mismatch(s, i, mnemonic(instruction_at(8)), 0);
    assert(instruction_from(s, i, 8) == instruction_from(s, i, 9));
    lemma_letter_cases(s[i], 'm', 'M', 's');
    assert(mnemonic(instruction_at(9)) =~= seq!['s', 'h', 'l']);
    lemma_word_mismatch(s, i, mnemonic(instruction_at(9)), 0);
    assert(instruction_from(s, i, 9) == instruction_from(s, i, 10));
    lemma_letter_cases(s[i], 'm', 'M', 'j');
    assert(mnemonic(instruction_at(10)) =~= seq!['j', 'm', 'p']);
    lemma_word_mismatch(s, i, mnemonic(instruction_at(10)), 0);
    assert(instruction_from(s, i, 10) == instruction_from(s, i, 11));
    lemma_letter_cases(s[i], 'm', 'M', 'j');
    assert(mnemonic(instruction_at(11)) =~= seq!['j', 'z']);
    lemma_word_mismatch(s, i, mnemonic(instruction_at(11)), 0);
    assert(instruction_from(s, i, 11) == instruction_from(s, i, 12));
    lemma_letter_cases(s[i], 'm', 'M', 'j');
    assert(mnemonic(instruction_at(12)) =~= seq!['j', 's']);
    lemma_word_mismatch(s, i, mnemonic(instruction_at(12)), 0);
    assert(instruction_from(s, i, 12) == instruction_from(s, i, 13));
    lemma_letter_cases(s[i], 'm', 'M', 'j');
    assert(mnemonic(instruction_at(13)) =~= seq!['j', 'c']);
    lemma_word_mismatch(s, i, mnemonic(instruction_at(13)), 0);
    assert(instruction_from(s, i, 13) == instruction_from(s, i, 14));
    lemma_letter_cases(s[i], 'm', 'M', 'j');
    assert(mnemonic(instruction_at(14)) =~= seq!['j', 'o']);
    lemma_word_mismatch(s, i, mnemonic(instruction_at(14)), 0);
    assert(instruction_from(s, i, 14) == instruction_from(s, i, 15));
    lemma_letter_cases(s[i], 'm', 'M', 'j');
    assert(mnemonic(instruction_at(15)) =~= seq!['j', 'p']);
    lemma_word_mismatch(s, i, mnemonic(instruction_at(15)), 0);
    assert(instruction_from(s, i, 15) == instruction_from(s, i, 16));
    lemma_letter_cases(s[i], 'm', 'M', 'm');
    lemma_letter_cases(s[i + 1], 'o', 'O', 'o');
    lemma_letter_cases(s[i + 2], 'v', 'V', 'v');
    let w = mnemonic(instruction_at(16));
    assert(w =~= seq!['m', 'o', 'v']);
    assert forall|k: int| 0 <= k < w.len() implies same_letter(#[trigger] s[i + k], w[k]) by {
        if k == 0 {
        } else if k == 1 {
        } else {
        }
    }
    lemma_word_match(s, i, w);
}

/// `nop`, in any case, is read as `Nop`.
proof fn lemma_reads_nop(s: Seq<char>, i: int)
    requires
        letter_at(s, i, 'n', 'N') && letter_at(s, i + 1, 'o', 'O') && letter_at(s, i + 2, 'p', 'P'),
    ensures
        spec_instruction(s, i) == Ok::<(int, Instruction), ParseError>((i + 3, Instruction::Nop)),
{
    lemma_letter_cases(s[i], 'n', 'N', 'a');
    assert(mnemonic(instruction_at(0)) =~= seq!['a', 'd', 'd']);
    lemma_word_mismatch(s, i, mnemonic(instruction_at(0)), 0);
    assert(instruction_from(s, i, 0) == instruction_from(s, i, 1));
    lemma_letter_cases(s[i], 'n', 'N', 's');
    assert(mnemonic(instruction_at(1)) =~= seq!['s', 'u', 'b']);
    lemma_word_mismatch(s, i, mnemonic(instruction_at(1)), 0);
    assert(instruction_from(s, i, 1) == instruction_from(s, i, 2));
    lemma_letter_cases(s[i], 'n', 'N', 'c');
    assert(mnemonic(instruction_at(2)) =~= seq!['c', 'm', 'p']);
    lemma_word_mismatch(s, i, mnemonic(instruction_at(2)), 0);
    assert(instruction_from(s, i, 2) == instruction_from(s, i, 3));
    lemma_letter_cases(s[i], 'n', 'N', 'i');
    assert(mnemonic(instruction_at(3)) =~= seq!['i', 'n', 'c']);
    lemma_word_mismatch(s, i, mnemonic(instruction_at(3)), 0);
    assert(instruction_from(s, i, 3) == instruction_from(s, i, 4));
    lemma_letter_cases(s[i], 'n', 'N', 'd');
    assert(mnemonic(instruction_at(4)) =~= seq!['d', 'e', 'c']);
    lemma_word_mismatch(s, i, mnemonic(instruction_at(4)), 0);
    assert(instruction_from(s, i, 4) == instruction_from(s, i, 5));
    lemma_letter_cases(s[i], 'n', 'N', 'a');
    assert(mnemonic(instruction_at(5)) =~= seq!['a', 'n', 'd']);
    lemma_word_mismatch(s, i, mnemonic(instruction_at(5)), 0);
    assert(instruction_from(s, i, 5) == instruction_from(s, i, 6));
    lemma_letter_cases(s[i], 'n', 'N', 'o');
    assert(mnemonic(instruction_at(6)) =~= seq!['o', 'r']);
    lemma_word_mismatch(s, i, mnemonic(instruction_at(6)), 0);
    assert(instruction_from(s, i, 6) == instruction_from(s, i, 7));
    lemma_letter_cases(s[i + 2], 'p', 'P', 't');
    assert(mnemonic(instruction_at(7)) =~= seq!['n', 'o', 't']);
    lemma_word_mismatch(s, i, mnemonic(instruction_at(7)), 2);
    assert(instruction_from(s, i, 7) == instruction_from(s, i, 8));
    lemma_letter_cases(s[i], 'n', 'N', 's');
    assert(mnemonic(instruction_at(8)) =~= seq!['s', 'h', 'r']);
    lemma_word_mismatch(s, i, mnemonic(instruction_at(8)), 0);
    assert(instruction_from(s, i, 8) == instruction_from(s, i, 9));
    lemma_letter_cases(s[i], 'n', 'N', 's');
    assert(mnemonic(instruction_at(9)) =~= seq!['s', 'h', 'l']);
    lemma_word_mismatch(s, i, mnemonic(instruction_at(9)), 0);
    assert(instruction_from(s, i, 9) == instruction_from(s, i, 10));
    lemma_letter_cases(s[i], 'n', 'N', 'j');
    assert(mnemonic(instruction_at(10)) =~= seq!['j', 'm', 'p']);
    lemma_word_mismatch(s, i, mnemonic(instruction_at(10)), 0);
    assert(instruction_from(s, i, 10) == instruction_from(s, i, 11));
    lemma_letter_cases(s[i], 'n', 'N', 'j');
    assert(mnemonic(instruction_at(11)) =~= seq!['j', 'z']);
    lemma_word_mismatch(s, i, mnemonic(instruction_at(11)), 0);
    assert(instruction_from(s, i, 11) == instruction_from(s, i, 12));
    lemma_letter_cases(s[i], 'n', 'N', 'j');
    assert(mnemonic(instruction_at(12)) =~= seq!['j', 's']);
    lemma_word_mismatch(s, i, mnemonic(instruction_at(12)), 0);
    assert(instruction_from(s, i, 12) == instruction_from(s, i, 13));
    lemma_letter_cases(s[i], 'n', 'N', 'j');
    assert(mnemonic(instruction_at(13)) =~= seq!['j', 'c']);
    lemma_word_mismatch(s, i, mnemonic(instruction_at(13)), 0);
    assert(instruction_from(s, i, 13) == instruction_from(s, i, 14));
    lemma_letter_cases(s[i], 'n', 'N', 'j');
    assert(mnemonic(instruction_at(14)) =~= seq!['j', 'o']);
    lemma_word_mismatch(s, i, mnemonic(instruction_at(14)), 0);
    assert(instruction_from(s, i, 14) == instruction_from(s, i, 15));
    lemma_letter_cases(s[i], 'n', 'N', 'j');
    assert(mnemonic(instruction_at(15)) =~= seq!['j', 'p']);
    lemma_word_mismatch(s, i, mnemonic(instruction_at(15)), 0);
    assert(instruction_from(s, i, 15) == instruction_from(s, i, 16));
    lemma_letter_cases(s[i], 'n', 'N', 'm');
    assert(mnemonic(instruction_at(16)) =~= seq!['m', 'o', 'v']);
    lemma_word_mismatch(s, i, mnemonic(instruction_at(16)), 0);
    assert(instruction_from(s, i, 16) == instruction_from(s, i, 17));
    lemma_letter_cases(s[i], 'n', 'N', 'n');
    lemma_letter_cases(s[i + 1], 'o', 'O', 'o');
    lemma_letter_cases(s[i + 2], 'p', 'P', 'p');
    let w = mnemonic(instruction_at(17));
    assert(w =~= seq!['n', 'o', 'p']);
    assert forall|k: int| 0 <= k < w.len() implies same_letter(#[trigger] s[i + k], w[k]) by {
        if k == 0 {
        } else if k == 1 {
        } else {
        }
    }
    lemma_word_match(s, i, w);
}

/// Each mnemonic of the instruction set, written in any mix of upper and
/// lower case at the start of the text, is read as its instruction.
pub proof fn law_mnemonics(s: Seq<char>, i: int)
    ensures
        letter_at(s, i, 'a', 'A') && letter_at(s, i + 1, 'd', 'D') && letter_at(s, i + 2, 'd', 'D')
            ==> spec_instruction(s, i) == Ok::<(int, Instruction), ParseError>((i + 3, Instruction::Add)),
        letter_at(s, i, 's', 'S') && letter_at(s, i + 1, 'u', 'U') && letter_at(s, i + 2, 'b', 'B')
            ==> spec_instruction(s, i) == Ok::<(int, Instruction), ParseError>((i + 3, Instruction::Sub)),
        letter_at(s, i, 'c', 'C') && letter_at(s, i + 1, 'm', 'M') && letter_at(s, i + 2, 'p', 'P')
            ==> spec_instruction(s, i) == Ok::<(int, Instruction), ParseError>((i + 3, Instruction::Cmp)),
        letter_at(s, i, 'i', 'I') && letter_at(s, i + 1, 'n', 'N') && letter_at(s, i + 2, 'c', 'C')
            ==> spec_instruction(s, i) == Ok::<(int, Instruction), ParseError>((i + 3, Instruction::Inc)),
        letter_at(s, i, 'd', 'D') && letter_at(s, i + 1, 'e', 'E') && letter_at(s, i + 2, 'c', 'C')
            ==> spec_instruction(s, i) == Ok::<(int, Instruction), ParseError>((i + 3, Instruction::Dec)),
        letter_at(s, i, 'a', 'A') && letter_at(s, i + 1, 'n', 'N') && letter_at(s, i + 2, 'd', 'D')
            ==> spec_instruction(s, i) == Ok::<(int, Instruction), ParseError>((i + 3, Instruction::And)),
        letter_at(s, i, 'o', 'O') && letter_at(s, i + 1, 'r', 'R')
            ==> spec_instruction(s, i) == Ok::<(int, Instruction), ParseError>((i + 2, Instruction::Or)),
        letter_at(s, i, 'n', 'N') && letter_at(s, i + 1, 'o', 'O') && letter_at(s, i + 2, 't', 'T')
            ==> spec_instruction(s, i) == Ok::<(int, Instruction), ParseError>((i + 3, Instruction::Not)),
        letter_at(s, i, 's', 'S') && letter_at(s, i + 1, 'h', 'H') && letter_at(s, i + 2, 'r', 'R')
            ==> spec_instruction(s, i) == Ok::<(int, Instruction), ParseError>((i + 3, Instruction::Shr)),
        letter_at(s, i, 's', 'S') && letter_at(s, i + 1, 'h', 'H') && letter_at(s, i + 2, 'l', 'L')
            ==> spec_instruction(s, i) == Ok::<(int, Instruction), ParseError>((i + 3, Instruction::Shl)),
        letter_at(s, i, 'j', 'J') && letter_at(s, i + 1, 'm', 'M') && letter_at(s, i + 2, 'p', 'P')
            ==> spec_instruction(s, i) == Ok::<(int, Instruction), ParseError>((i + 3, Instruction::Jmp)),
        letter_at(s, i, 'j', 'J') && letter_at(s, i + 1, 'z', 'Z')
            ==> spec_instruction(s, i) == Ok::<(int, Instruction), ParseError>((i + 2, Instruction::Jz)),
        letter_at(s, i, 'j', 'J') && letter_at(s, i + 1, 's', 'S')
            ==> spec_instruction(s, i) == Ok::<(int, Instruction), ParseError>((i + 2, Instruction::Js)),
        letter_at(s, i, 'j', 'J') && letter_at(s, i + 1, 'c', 'C')
            ==> spec_instruction(s, i) == Ok::<(int, Instruction), ParseError>((i + 2, Instruction::Jc)),
        letter_at(s, i, 'j', 'J') && letter_at(s, i + 1, 'o', 'O')
            ==> spec_instruction(s, i) == Ok::<(int, Instruction), ParseError>((i + 2, Instruction::Jo)),
        letter_at(s, i, 'j', 'J') && letter_at(s, i + 1, 'p', 'P')
            ==> spec_instruction(s, i) == Ok::<(int, Instruction), ParseError>((i + 2, Instruction::Jp)),
        letter_at(s, i, 'm', 'M') && letter_at(s, i + 1, 'o', 'O') && letter_at(s, i + 2, 'v', 'V')
            ==> spec_instruction(s, i) == Ok::<(int, Instruction), ParseError>((i + 3, Instruction::Mov)),
        letter_at(s, i, 'n', 'N') && letter_at(s, i + 1, 'o', 'O') && letter_at(s, i + 2, 'p', 'P')
            ==> spec_instruction(s, i) == Ok::<(int, Instruction), ParseError>((i + 3, Instruction::Nop)),
{
    if letter_at(s, i, 'a', 'A') && letter_at(s, i + 1, 'd', 'D') && letter_at(s, i + 2, 'd', 'D') {
        lemma_reads_add(s, i);
    }
    if letter_at(s, i, 's', 'S') && letter_at(s, i + 1, 'u', 'U') && letter_at(s, i + 2, 'b', 'B') {
        lemma_reads_sub(s, i);
    }
    if letter_at(s, i, 'c', 'C') && letter_at(s, i + 1, 'm', 'M') && letter_at(s, i + 2, 'p', 'P') {
        lemma_reads_cmp(s, i);
    }
    if letter_at(s, i, 'i', 'I') && letter_at(s, i + 1, 'n', 'N') && letter_at(s, i + 2, 'c', 'C') {
        lemma_reads_inc(s, i);
    }
    if letter_at(s, i, 'd', 'D') && letter_at(s, i + 1, 'e', 'E') && letter_at(s, i + 2, 'c', 'C') {
        lemma_reads_dec(s, i);
    }
    if letter_at(s, i, 'a', 'A') && letter_at(s, i + 1, 'n', 'N') && letter_at(s, i + 2, 'd', 'D') {
        lemma_reads_and(s, i);
    }
    if letter_at(s, i, 'o', 'O') && letter_at(s, i + 1, 'r', 'R') {
        lemma_reads_or(s, i);
    }
    if letter_at(s, i, 'n', 'N') && letter_at(s, i + 1, 'o', 'O') && letter_at(s, i + 2, 't', 'T') {
        lemma_reads_not(s, i);
    }
    if letter_at(s, i, 's', 'S') && letter_at(s, i + 1, 'h', 'H') && letter_at(s, i + 2, 'r', 'R') {
        lemma_reads_shr(s, i);
    }
    if letter_at(s, i, 's', 'S') && letter_at(s, i + 1, 'h', 'H') && letter_at(s, i + 2, 'l', 'L') {
        lemma_reads_shl(s, i);
    }
    if letter_at(s, i, 'j', 'J') && letter_at(s, i + 1, 'm', 'M') && letter_at(s, i + 2, 'p', 'P') {
        lemma_reads_jmp(s, i);
    }
    if letter_at(s, i, 'j', 'J') && letter_at(s, i + 1, 'z', 'Z') {
        lemma_reads_jz(s, i);
    }
    if letter_at(s, i, 'j', 'J') && letter_at(s, i + 1, 's', 'S') {
        lemma_reads_js(s, i);
    }
    if letter_at(s, i, 'j', 'J') && letter_at(s, i + 1, 'c', 'C') {
        lemma_reads_jc(s, i);
    }
    if letter_at(s, i, 'j', 'J') && letter_at(s, i + 1, 'o', 'O') {
        lemma_reads_jo(s, i);
    }
    if letter_at(s, i, 'j', 'J') && letter_at(s, i + 1, 'p', 'P') {
        lemma_reads_jp(s, i);
    }
    if letter_at(s, i, 'm', 'M') && letter_at(s, i + 1, 'o', 'O') && letter_at(s, i + 2, 'v', 'V') {
        lemma_reads_mov(s, i);
    }
    if letter_at(s, i, 'n', 'N') && letter_at(s, i + 1, 'o', 'O') && letter_at(s, i + 2, 'p', 'P') {
        lemma_reads_nop(s, i);
    }
}

/// The value of a digit in base 16, found from its code point: `0` to `9`
/// are 48 to 57, `a` to `f` are 97 to 102 and `A` to `F` are 65 to 70.
pub open spec fn base16_digit(c: char) -> Option<int> {
    let n = c as int;
    if 48 <= n <= 57 {
        Some(n - 48)
    } else if 97 <= n <= 102 {
        Some(n - 87)
    } else if 65 <= n <= 70 {
        Some(n - 55)
    } else {
        None
    }
}

proof fn lemma_hex_digit(c: char)
    ensures
        is_hex_digit(c) <==> base16_digit(c) is Some,
        is_hex_digit(c) ==> hex_digit_value(c) == base16_digit(c)->0,
{
}

/// A constant is two characters and `h` or `H`: the two characters are two
/// base-16 digits, or a plus sign and one digit. Its value is what the
/// digits spell; a text shorter than three characters is incomplete.
pub proof fn law_constants(s: Seq<char>, i: int)
    requires
        0 <= i,
    ensures
        spec_const(s, i) is Ok <==> (i + 3 <= s.len() && (s[i + 2] == 'h' || s[i + 2] == 'H')
            && base16_digit(s[i + 1]) is Some && (base16_digit(s[i]) is Some || s[i] == '+')),
        spec_const(s, i) == Err::<(int, SpecOperand), ParseError>(ParseError::Incomplete) <==> s.len()
            < i + 3,
        spec_const(s, i) matches Ok((j, v)) ==> j == i + 3 && v == SpecOperand::Const(
            (match base16_digit(s[i]) {
                Some(d) => 16 * d + base16_digit(s[i + 1])->0,
                None => base16_digit(s[i + 1])->0,
            }) as u8,
        ),
{
    if i + 3 <= s.len() {
        lemma_hex_digit(s[i]);
        lemma_hex_digit(s[i + 1]);
        law_same_letter(s[i + 2], 'h');
    }
}

/// Blanks are spaces and tabs: the run of blanks at `i` takes every space
/// and tab from `i` on and stops at the first other character.
pub proof fn law_blanks(s: Seq<char>, i: int)
    requires
        0 <= i <= s.len(),
    ensures
        i <= blank_end(s, i) <= s.len(),
        forall|k: int| i <= k < blank_end(s, i) ==> #[trigger] s[k] == ' ' || s[k] == '\t',
        blank_end(s, i) < s.len() ==> s[blank_end(s, i)] != ' ' && s[blank_end(s, i)] != '\t',
    decreases s.len() - i,
{
    if i < s.len() && (s[i] == ' ' || s[i] == '\t') {
        law_blanks(s, i + 1);
    }
}

/// A statement ends with spaces or tabs and a line break, and nothing else.
pub proof fn law_end_of_statement(s: Seq<char>, i: int, n: int)
    requires
        0 <= i <= n < s.len(),
    ensures
        spec_end_of_statement(s, i) matches Ok(j) ==> i < j <= s.len() && s[j - 1] == '\n'
            && forall|k: int| i <= k < j - 1 ==> #[trigger] s[k] == ' ' || s[k] == '\t',
        s[n] == '\n' && (forall|k: int| i <= k < n ==> #[trigger] s[k] == ' ' || s[k] == '\t')
            ==> spec_end_of_statement(s, i) == Ok::<int, ParseError>(n + 1),
{
    law_blanks(s, i);
    let j = blank_end(s, i);
    if s[n] == '\n' && (forall|k: int| i <= k < n ==> #[trigger] s[k] == ' ' || s[k] == '\t') {
        if j < n {
            assert(s[j] == ' ' || s[j] == '\t');
        } else if j > n {
            assert(s[n] == ' ' || s[n] == '\t');
        }
    }
}

/// A label operand runs up to the first space or line break, or to the end
/// of the text.
pub proof fn law_label_operand(s: Seq<char>, i: int)
    requires
        0 <= i <= s.len(),
    ensures
        ({
            let (j, op) = spec_label_ref(s, i);
            &&& i <= j <= s.len()
            &&& op == SpecOperand::Label(s.subrange(i, j))
            &&& forall|k: int| i <= k < j ==> #[trigger] s[k] != ' ' && s[k] != '\n'
            &&& j < s.len() ==> s[j] == ' ' || s[j] == '\n'
        }),
    decreases s.len() - i,
{
    if i < s.len() && s[i] != ' ' && s[i] != '\n' {
        law_label_operand(s, i + 1);
    }
}

/// A declared name runs up to the first colon, space or line break; a text
/// with none of them after `i` has no declared name there.
pub proof fn law_declared_name(s: Seq<char>, i: int)
    requires
        0 <= i <= s.len(),
    ensures
        declared_name_end(s, i) matches Some(k) ==> i <= k < s.len() && (s[k] == ':' || s[k] == ' '
            || s[k] == '\n') && forall|m: int|
            i <= m < k ==> #[trigger] s[m] != ':' && s[m] != ' ' && s[m] != '\n',
        declared_name_end(s, i) is None ==> forall|m: int|
            i <= m < s.len() ==> #[trigger] s[m] != ':' && s[m] != ' ' && s[m] != '\n',
    decreases s.len() - i,
{
    if i < s.len() && s[i] != ':' && s[i] != ' ' && s[i] != '\n' {
        law_declared_name(s, i + 1);
    }
}

/// Which text is which operand: `A`, `B` and `I` are the registers, `[I]`
/// the cell I points at and `[` constant `]` a cell at a constant address;
/// otherwise a constant, and where the text cannot be a constant, a label.
pub proof fn law_operand_tokens(s: Seq<char>, i: int)
    requires
        0 <= i < s.len(),
    ensures
        s[i] == 'A' ==> spec_operand(s, i) == (i + 1, Some(SpecOperand::A)),
        s[i] == 'B' ==> spec_operand(s, i) == (i + 1, Some(SpecOperand::B)),
        s[i] == 'I' ==> spec_operand(s, i) == (i + 1, Some(SpecOperand::I)),
        i + 3 <= s.len() && s[i] == '[' && s[i + 1] == 'I' && s[i + 2] == ']' ==> spec_operand(s, i)
            == (i + 3, Some(SpecOperand::MemI)),
        s[i] == '[' && i + 5 <= s.len() && spec_const(s, i + 1) is Ok && s[i + 4] == ']' ==> ({
            match spec_const(s, i + 1) {
                Ok((_, SpecOperand::Const(v))) => spec_operand(s, i) == (
                    i + 5,
                    Some(SpecOperand::MemConst(v)),
                ),
                _ => false,
            }
        }),
        s[i] != 'A' && s[i] != 'B' && s[i] != 'I' && s[i] != '[' ==> match spec_const(s, i) {
            Ok((j, c)) => spec_operand(s, i) == (j, Some(c)),
            Err(ParseError::Invalid) => spec_operand(s, i) == ({
                let (j, l) = spec_label_ref(s, i);
                (j, Some(l))
            }),
            Err(ParseError::Incomplete) => spec_operand(s, i) == (i, None::<SpecOperand>),
        },
{
    law_constants(s, i);
    law_constants(s, i + 1);
}

/// Two operands are separated by a comma, with optional blanks around it,
/// and the instruction is followed by at least one blank.
pub proof fn law_operand_separator(s: Seq<char>, i: int)
    requires
        0 <= i <= s.len(),
    ensures
        spec_dual_operand_op(s, i) matches Ok((k, st)) ==> match spec_instruction(s, i) {
            Ok((j, ins)) => {
                let m = blank_end(s, j);
                let (p, first) = spec_operand(s, m);
                let q = blank_end(s, p);
                let (r, second) = spec_operand(s, blank_end(s, q + 1));
                &&& m > j
                &&& q < s.len() && s[q] == ','
                &&& spec_end_of_statement(s, r) == Ok::<int, ParseError>(k)
                &&& st == SpecStatement::Operation(ins, first, second)
            },
            Err(_) => false,
        },
{
    if let Ok((j, _)) = spec_instruction(s, i) {
        lemma_instruction_within(s, i, 0);
        law_blanks(s, j);
    }
}

} // verus!
