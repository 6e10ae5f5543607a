use assembler::{
    assemble_statement, first_pass, second_pass, Instruction, LabelTable, Operand, Statement,
};

#[test]
fn test_assemble_invalid_statements() {
    let mut bytes = Vec::<u8>::new();
    let labels = LabelTable::new();

    assert!(matches!(
        assemble_statement(
            // Invalid operands "add A, A"
            &Statement::Operation(Instruction::Add, Some(Operand::A), Some(Operand::A)),
            &labels,
            &mut bytes
        ),
        Err(_)
    ));

    assert!(matches!(
        assemble_statement(
            // Invalid memory2memory operands "mov [I], [80H]"
            &Statement::Operation(
                Instruction::Mov,
                Some(Operand::MemI),
                Some(Operand::MemConst(0x80))
            ),
            &labels,
            &mut bytes
        ),
        Err(_)
    ));

    assert!(matches!(
        assemble_statement(
            // Subtle invalid operands "mov I, [80H]"
            &Statement::Operation(
                Instruction::Mov,
                Some(Operand::I),
                Some(Operand::MemConst(0x80))
            ),
            &labels,
            &mut bytes
        ),
        Err(_)
    ));

    assert!(matches!(
        assemble_statement(
            // Non-existent label "jmp LOOP"
            &Statement::Operation(Instruction::Jmp, Some(Operand::Label("LOOP")), None),
            &labels,
            &mut bytes
        ),
        Err("Label not found")
    ));
}

#[test]
fn test_assemble_valid_statements() {
    let mut bytes = Vec::<u8>::new();
    let labels = LabelTable::new();

    assert!(matches!(
        assemble_statement(
            // mov A, [80H]
            &Statement::Operation(
                Instruction::Mov,
                Some(Operand::A),
                Some(Operand::MemConst(0x80))
            ),
            &labels,
            &mut bytes
        ),
        Ok(())
    ));
    assert_eq!(bytes, vec![0xBA, 0x80]);

    bytes.clear();

    assert!(matches!(
        assemble_statement(
            // nop
            &Statement::Operation(Instruction::Nop, None, None),
            &labels,
            &mut bytes
        ),
        Ok(())
    ));
    assert_eq!(bytes, vec![0xFF]);
}

#[test]
fn test_assemble_label_declaration() {
    let mut bytes = Vec::<u8>::new();
    let mut labels = LabelTable::new();

    let statements = &vec![
        Statement::Label("LOOP"),
        Statement::Operation(Instruction::Jmp, Some(Operand::Label("LOOP")), None),
    ];
    first_pass(statements, &mut labels);
    assert!(matches!(
        second_pass(statements, &labels, &mut bytes),
        Ok(())
    ));
    assert_eq!(bytes, vec![0xA0, 0x00]);

    bytes.clear();

    let statements = &vec![
        Statement::Operation(
            Instruction::Add,
            Some(Operand::A),
            Some(Operand::Const(0x10)),
        ), // 2 bytes
        Statement::Operation(Instruction::Inc, Some(Operand::A), None), // 1 bytes
        Statement::Label("LOOP"), // should map to address 0x3
        Statement::Operation(Instruction::Jmp, Some(Operand::Label("LOOP")), None),
    ];
    first_pass(statements, &mut labels);
    assert!(matches!(
        second_pass(statements, &labels, &mut bytes),
        Ok(())
    ));
    assert_eq!(bytes, vec![0x06, 0x10, 0x30, 0xA0, 0x03]);
}
