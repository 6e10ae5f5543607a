use assembler::{
    end_of_statement, parse_a, parse_const, parse_dual_inst_op, parse_file, parse_instruction,
    parse_label, parse_label_declaration, parse_mem, parse_operand, parse_single_inst_op,
    parse_statement, Instruction, Operand, ParseError, Statement,
};

#[test]
fn mnemonics_are_read_in_any_case() {
    assert_eq!(parse_instruction("mOv x"), Ok((" x", Instruction::Mov)));
    assert_eq!(parse_instruction("JP"), Ok(("", Instruction::Jp)));
    assert_eq!(parse_instruction("orb"), Ok(("b", Instruction::Or)));
}

#[test]
fn a_mnemonic_cut_short_is_incomplete() {
    assert_eq!(parse_instruction(""), Err(ParseError::Incomplete));
    assert_eq!(parse_instruction("j"), Err(ParseError::Incomplete));
    assert_eq!(parse_instruction("mo"), Err(ParseError::Incomplete));
    assert_eq!(parse_instruction("xyz"), Err(ParseError::Invalid));
}

#[test]
fn constants_are_two_hex_digits_and_h() {
    assert_eq!(parse_const("ffh rest"), Ok((" rest", Operand::Const(0xff))));
    assert_eq!(parse_const("0AH"), Ok(("", Operand::Const(0x0a))));
    assert_eq!(parse_const("+FH"), Ok(("", Operand::Const(0x0f))));
    assert_eq!(parse_const("1gH"), Err(ParseError::Invalid));
    assert_eq!(parse_const("12x"), Err(ParseError::Invalid));
    assert_eq!(parse_const("12"), Err(ParseError::Incomplete));
    assert_eq!(parse_const("éfH"), Err(ParseError::Invalid));
}

#[test]
fn memory_operands() {
    assert_eq!(parse_mem("[I],"), Ok((",", Operand::MemI)));
    assert_eq!(parse_mem("[7fh]"), Ok(("", Operand::MemConst(0x7f))));
    assert_eq!(parse_mem("[7fh"), Err(ParseError::Incomplete));
    assert_eq!(parse_mem("[A]"), Err(ParseError::Incomplete));
    assert_eq!(parse_mem("[A]x"), Err(ParseError::Invalid));
    assert_eq!(parse_mem("I"), Err(ParseError::Invalid));
}

#[test]
fn operands_never_fail() {
    assert_eq!(parse_operand(""), Ok(("", None)));
    assert_eq!(parse_operand("\n"), Ok(("\n", None)));
    assert_eq!(parse_operand(" x"), Ok((" x", None)));
    assert_eq!(parse_operand(" xy"), Ok((" xy", Some(Operand::Label("")))));
    assert_eq!(parse_operand("Ax"), Ok(("x", Some(Operand::A))));
    assert_eq!(parse_label("née\n"), Ok(("\n", Operand::Label("née"))));
    assert_eq!(parse_label(""), Ok(("", Operand::Label(""))));
    assert_eq!(parse_a("B"), Err(ParseError::Invalid));
    assert_eq!(parse_a(""), Err(ParseError::Incomplete));
}

#[test]
fn statement_shapes() {
    assert_eq!(end_of_statement(" \t\nx"), Ok(("x", ())));
    assert_eq!(end_of_statement("x"), Err(ParseError::Invalid));
    assert_eq!(parse_label_declaration(":\n"), Ok(("", Statement::Label(""))));
    assert_eq!(
        parse_single_inst_op("inc B\n"),
        Ok(("", Statement::Operation(Instruction::Inc, Some(Operand::B), None)))
    );
    assert_eq!(parse_single_inst_op("inc\n"), Err(ParseError::Invalid));
    assert_eq!(
        parse_dual_inst_op("mov A ,  [I]\nnop\n"),
        Ok((
            "nop\n",
            Statement::Operation(Instruction::Mov, Some(Operand::A), Some(Operand::MemI))
        ))
    );
    assert_eq!(parse_dual_inst_op("mov A"), Err(ParseError::Incomplete));
    assert_eq!(
        parse_statement("\t nop \n"),
        Ok(("", Statement::Operation(Instruction::Nop, None, None)))
    );
    assert_eq!(parse_statement("a:\n"), Ok(("", Statement::Label("a"))));
    assert_eq!(parse_statement("a"), Err(ParseError::Incomplete));
}

#[test]
fn reading_a_file_never_fails() {
    assert_eq!(parse_file(""), Ok(("", vec![])));
    assert_eq!(parse_file("garbage"), Ok(("garbage", vec![])));
    assert_eq!(
        parse_file("nop\n???\nnop\n"),
        Ok(("???\nnop\n", vec![Statement::Operation(Instruction::Nop, None, None)]))
    );
}

#[test]
fn every_statement_consumes_text() {
    for text in ["nop\n", "x:\n", " inc A\n", "mov A, 10h\n", "jz END\n"] {
        let (rest, _) = parse_statement(text).unwrap();
        assert!(rest.len() < text.len());
    }
}
