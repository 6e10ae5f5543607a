use assembler::{
    parse_file, parse_instruction, parse_label_declaration, parse_operand, parse_operation,
    parse_statement, Instruction, Operand, Statement,
};

#[test]
fn test_parse_label_declaration() {
    assert!(matches!(
        parse_label_declaration("test_label:\n"),
        Ok((_, Statement::Label("test_label")))
    ));
    assert!(matches!(
        parse_label_declaration("test_label   :   \n"),
        Ok((_, Statement::Label("test_label")))
    ));
    assert!(matches!(parse_label_declaration("test_label"), Err(_)));
    assert!(matches!(parse_label_declaration("test_label:"), Err(_)));
}

#[test]
fn test_parse_instruction() {
    assert!(matches!(parse_instruction("NA "), Err(_)));
    assert!(matches!(parse_instruction("mov"), Ok((_, Instruction::Mov))));
    assert!(matches!(parse_instruction("mov "), Ok((_, Instruction::Mov))));
    assert!(matches!(parse_instruction("MOV"), Ok((_, Instruction::Mov))));
    assert!(matches!(parse_instruction("ADD"), Ok((_, Instruction::Add))));
    assert!(matches!(parse_instruction("SUB"), Ok((_, Instruction::Sub))));
}

#[test]
fn test_parse_operand() {
    assert!(matches!(parse_operand("A"), Ok((_, Some(Operand::A)))));
    assert!(matches!(parse_operand("B"), Ok((_, Some(Operand::B)))));
    assert!(matches!(parse_operand("I"), Ok((_, Some(Operand::I)))));
    assert!(matches!(
        parse_operand("10H"),
        Ok((_, Some(Operand::Const(0x10))))
    ));
    assert!(matches!(
        parse_operand("[20H]"),
        Ok((_, Some(Operand::MemConst(0x20))))
    ));
    assert!(matches!(parse_operand("[I]"), Ok((_, Some(Operand::MemI)))));
    assert!(matches!(
        parse_operand("test_label \n"),
        Ok((_, Some(Operand::Label("test_label"))))
    ));
}

#[test]
fn test_parse_operation() {
    assert!(matches!(
        parse_operation("mov A, B\n"),
        Ok((
            _,
            Statement::Operation(Instruction::Mov, Some(Operand::A), Some(Operand::B))
        ))
    ));
    assert!(matches!(
        parse_operation("inc I\n"),
        Ok((
            _,
            Statement::Operation(Instruction::Inc, Some(Operand::I), None)
        ))
    ));
    assert!(matches!(
        parse_operation("jmp LOOP\n"),
        Ok((
            _,
            Statement::Operation(Instruction::Jmp, Some(Operand::Label("LOOP")), None)
        ))
    ));
    assert!(matches!(
        parse_operation("nop\n"),
        Ok((_, Statement::Operation(Instruction::Nop, None, None)))
    ));
}

#[test]
fn test_parse_statement() {
    let (remainder, statement) = parse_statement("mov A, B\n LOOP: \n dec A\n").unwrap();
    assert_eq!(remainder, " LOOP: \n dec A\n");
    assert_eq!(
        statement,
        Statement::Operation(Instruction::Mov, Some(Operand::A), Some(Operand::B))
    );

    let (remainder, statement) = parse_statement(remainder).unwrap();
    assert_eq!(remainder, " dec A\n");
    assert_eq!(statement, Statement::Label("LOOP"));

    let (remainder, statement) = parse_statement(remainder).unwrap();
    assert_eq!(remainder, "");
    assert_eq!(
        statement,
        Statement::Operation(Instruction::Dec, Some(Operand::A), None)
    );
}

#[test]
fn test_parse_file() {
    let (_, vector) = parse_file("mov A, 80H\n LOOP: \n dec A\n jmp LOOP\n").unwrap();

    assert_eq!(
        vector,
        Vec::from([
            Statement::Operation(
                Instruction::Mov,
                Some(Operand::A),
                Some(Operand::Const(0x80))
            ),
            Statement::Label("LOOP"),
            Statement::Operation(Instruction::Dec, Some(Operand::A), None),
            Statement::Operation(Instruction::Jmp, Some(Operand::Label("LOOP")), None),
        ])
    )
}
