use assembler::{
    assemble_double_operands, assemble_instruction, assemble_program, assemble_statement,
    first_pass, fits_address_space, parse_file, second_pass, Instruction, LabelTable, Operand,
    Statement,
};

fn op<'a>(i: Instruction, a: Option<Operand<'a>>, b: Option<Operand<'a>>) -> Statement<'a> {
    Statement::Operation(i, a, b)
}

#[test]
fn operation_codes() {
    let expected = [
        (Instruction::Add, 0x0),
        (Instruction::Sub, 0x1),
        (Instruction::Cmp, 0x2),
        (Instruction::Inc, 0x3),
        (Instruction::Dec, 0x4),
        (Instruction::And, 0x5),
        (Instruction::Or, 0x6),
        (Instruction::Not, 0x7),
        (Instruction::Shr, 0x8),
        (Instruction::Shl, 0x9),
        (Instruction::Jmp, 0xA0),
        (Instruction::Jz, 0xA1),
        (Instruction::Js, 0xA2),
        (Instruction::Jc, 0xA3),
        (Instruction::Jo, 0xA4),
        (Instruction::Jp, 0xA5),
        (Instruction::Mov, 0xB),
        (Instruction::Nop, 0xFF),
    ];
    for (instruction, code) in expected {
        assert_eq!(assemble_instruction(&instruction), code);
    }
}

#[test]
fn operand_pairs() {
    assert_eq!(assemble_double_operands(&Operand::A, &Operand::B), Ok((0x0, None)));
    assert_eq!(assemble_double_operands(&Operand::MemI, &Operand::A), Ok((0x5, None)));
    assert_eq!(
        assemble_double_operands(&Operand::MemI, &Operand::Const(7)),
        Ok((0x9, Some(7)))
    );
    assert_eq!(
        assemble_double_operands(&Operand::MemConst(0x42), &Operand::B),
        Ok((0xD, Some(0x42)))
    );
    assert_eq!(
        assemble_double_operands(&Operand::B, &Operand::B),
        Err("Invalid operand combination")
    );
    assert_eq!(
        assemble_double_operands(&Operand::Label("X"), &Operand::A),
        Err("Invalid operand combination")
    );
}

#[test]
fn each_error_and_what_it_leaves() {
    let labels = LabelTable::new();
    let mut bytes = vec![0x11];
    assert_eq!(
        assemble_statement(
            &op(Instruction::Sub, Some(Operand::I), Some(Operand::B)),
            &labels,
            &mut bytes
        ),
        Err("Invalid operand combination")
    );
    assert_eq!(bytes, vec![0x11]);
    // the operation code of a jump is emitted before its label is looked up
    assert_eq!(
        assemble_statement(&op(Instruction::Jc, Some(Operand::Label("END")), None), &labels, &mut bytes),
        Err("Label not found")
    );
    assert_eq!(bytes, vec![0x11, 0xA3]);
    assert_eq!(
        assemble_statement(&op(Instruction::Not, Some(Operand::Const(1)), None), &labels, &mut bytes),
        Err("Operand not valid for single instruction")
    );
    assert_eq!(
        assemble_statement(&op(Instruction::Mov, Some(Operand::A), None), &labels, &mut bytes),
        Err("Invalid statement")
    );
    assert_eq!(
        assemble_statement(&op(Instruction::Jmp, Some(Operand::A), None), &labels, &mut bytes),
        Err("Invalid statement")
    );
    assert_eq!(
        assemble_statement(&op(Instruction::Nop, Some(Operand::A), None), &labels, &mut bytes),
        Err("Invalid statement")
    );
    assert_eq!(bytes, vec![0x11, 0xA3]);
}

#[test]
fn one_operand_instructions() {
    let labels = LabelTable::new();
    let mut bytes = Vec::new();
    assemble_statement(&op(Instruction::Shl, Some(Operand::MemI), None), &labels, &mut bytes).unwrap();
    assemble_statement(&op(Instruction::Dec, Some(Operand::B), None), &labels, &mut bytes).unwrap();
    assert_eq!(bytes, vec![0x94, 0x41]);
}

#[test]
fn label_declarations_emit_nothing() {
    let labels = LabelTable::new();
    let mut bytes = Vec::new();
    assert_eq!(assemble_statement(&Statement::Label("X"), &labels, &mut bytes), Ok(()));
    assert!(bytes.is_empty());
}

#[test]
fn first_pass_reserves_room() {
    let mut labels = LabelTable::new();
    let statements = vec![
        Statement::Label("START"), // 1
        op(Instruction::Jz, Some(Operand::Label("START")), None), // 1
        op(Instruction::Mov, Some(Operand::MemConst(1)), Some(Operand::A)), // 2
        op(Instruction::Jmp, Some(Operand::Label("START")), None), // 2
        Statement::Label("END"),
        Statement::Label("START"),
    ];
    first_pass(&statements, &mut labels);
    assert_eq!(labels.get("END"), Some(6));
    // the last declaration of a name wins
    assert_eq!(labels.get("START"), Some(7));
    assert_eq!(labels.get("MISSING"), None);
}

#[test]
fn second_pass_stops_at_the_first_error() {
    let mut labels = LabelTable::new();
    labels.insert("HERE".to_string(), 9);
    let statements = vec![
        op(Instruction::Jp, Some(Operand::Label("HERE")), None),
        op(Instruction::Add, Some(Operand::A), Some(Operand::A)),
        op(Instruction::Nop, None, None),
    ];
    let mut bytes = Vec::new();
    assert_eq!(second_pass(&statements, &labels, &mut bytes), Err("Invalid operand combination"));
    assert_eq!(bytes, vec![0xA5, 9]);
}

#[test]
fn the_address_space_holds_255_bytes() {
    let mut statements = Vec::new();
    for _ in 0..127 {
        statements.push(op(Instruction::Mov, Some(Operand::A), Some(Operand::Const(0))));
    }
    statements.push(op(Instruction::Nop, None, None));
    assert!(fits_address_space(&statements));
    statements.push(op(Instruction::Nop, None, None));
    assert!(!fits_address_space(&statements));
}

#[test]
fn a_label_marks_the_offset_of_the_code_after_it() {
    let source = "mov A, 10h\n inc A\n mov [20h], B\n LOOP:\n dec A\n jmp LOOP\n";
    let (rest, statements) = parse_file(source).unwrap();
    assert_eq!(rest, "");
    assert!(fits_address_space(&statements));
    let code = assemble_program(&statements).unwrap();
    // the label is declared after 2 + 1 + 2 bytes of code
    assert_eq!(code, vec![0xB6, 0x10, 0x30, 0xBD, 0x20, 0x40, 0xA0, 0x05]);
}

#[test]
fn assembling_a_program_reports_its_error() {
    let (_, statements) = parse_file("jmp NOWHERE\n").unwrap();
    assert_eq!(assemble_program(&statements), Err("Label not found"));
}

#[test]
fn the_table_keeps_the_last_address_of_a_name() {
    let mut labels = LabelTable::new();
    labels.insert("A".to_string(), 1);
    labels.insert("B".to_string(), 2);
    labels.insert("A".to_string(), 3);
    assert_eq!(labels.get("A"), Some(3));
    assert_eq!(labels.get("B"), Some(2));
    assert_eq!(labels.get("C"), None);
}
