//! The grammar written once more with nom's combinators, and the library's
//! parsers checked against it on many generated inputs.
use assembler::{
    end_of_statement, parse_a, parse_b, parse_const, parse_dual_inst_op, parse_file, parse_i,
    parse_instruction, parse_label, parse_label_declaration, parse_mem, parse_no_inst_op,
    parse_operand, parse_operation, parse_single_inst_op, parse_statement, Instruction, Operand,
    ParseError, Statement,
};
use nom::branch::alt;
use nom::bytes::complete::take_till;
use nom::bytes::{tag, tag_no_case, take, take_while};
use nom::character::complete::{newline, space0, space1};
use nom::combinator::complete;
use nom::error::{Error, ErrorKind};
use nom::multi::many0;
use nom::sequence::{delimited, terminated};
use nom::{Err as NomErr, IResult, Parser};

fn n_parse_file(input: &str) -> IResult<&str, Vec<Statement<'_>>> {
    many0(complete(n_parse_statement)).parse(input)
}

fn n_parse_statement(input: &str) -> IResult<&str, Statement<'_>> {
    let (input, _) = space0(input)?;
    alt((n_parse_operation, n_parse_label_declaration)).parse(input)
}

fn n_end_of_statement(input: &str) -> IResult<&str, ()> {
    let (input, _) = space0(input)?;
    let (input, _) = newline(input)?;
    Ok((input, ()))
}

fn n_parse_label_declaration(input: &str) -> IResult<&str, Statement<'_>> {
    let (input, name) = terminated(
        take_while(|c| ![':', ' ', '\n'].contains(&c)),
        (space0, tag(":"), n_end_of_statement),
    )
    .parse(input)?;
    Ok((input, Statement::Label(name)))
}

fn n_parse_operation(input: &str) -> IResult<&str, Statement<'_>> {
    alt((n_parse_no_inst_op, n_parse_single_inst_op, n_parse_dual_inst_op)).parse(input)
}

fn n_parse_no_inst_op(input: &str) -> IResult<&str, Statement<'_>> {
    let (input, instruction) = n_parse_instruction(input)?;
    let (input, _) = n_end_of_statement(input)?;
    Ok((input, Statement::Operation(instruction, None, None)))
}

fn n_parse_single_inst_op(input: &str) -> IResult<&str, Statement<'_>> {
    let (input, instruction) = n_parse_instruction(input)?;
    let (input, _) = space1(input)?;
    let (input, operand) = n_parse_operand(input)?;
    let (input, _) = n_end_of_statement(input)?;
    Ok((input, Statement::Operation(instruction, operand, None)))
}

fn n_parse_dual_inst_op(input: &str) -> IResult<&str, Statement<'_>> {
    let (input, instruction) = n_parse_instruction(input)?;
    let (input, _) = space1(input)?;
    let (input, first) = n_parse_operand(input)?;
    let (input, _) = space0(input)?;
    let (input, _) = tag(",").parse(input)?;
    let (input, _) = space0(input)?;
    let (input, second) = n_parse_operand(input)?;
    let (input, _) = n_end_of_statement(input)?;
    Ok((input, Statement::Operation(instruction, first, second)))
}

fn n_parse_operand(input: &str) -> IResult<&str, Option<Operand<'_>>> {
    match alt((n_parse_a, n_parse_b, n_parse_i, n_parse_mem, n_parse_const, n_parse_label))
        .parse(input)
    {
        Ok((rest, operand)) => Ok((rest, Some(operand))),
        Err(_) => Ok((input, None)),
    }
}

fn n_parse_a(input: &str) -> IResult<&str, Operand<'_>> {
    let (input, _) = tag("A").parse(input)?;
    Ok((input, Operand::A))
}

fn n_parse_b(input: &str) -> IResult<&str, Operand<'_>> {
    let (input, _) = tag("B").parse(input)?;
    Ok((input, Operand::B))
}

fn n_parse_i(input: &str) -> IResult<&str, Operand<'_>> {
    let (input, _) = tag("I").parse(input)?;
    Ok((input, Operand::I))
}

fn n_parse_const(input: &str) -> IResult<&str, Operand<'_>> {
    let (input, digits) = terminated(take(2u8), tag_no_case("h")).parse(input)?;
    match u8::from_str_radix(digits, 16) {
        Ok(value) => Ok((input, Operand::Const(value))),
        Err(_) => Err(NomErr::Error(Error::new(input, ErrorKind::AlphaNumeric))),
    }
}

fn n_parse_mem(input: &str) -> IResult<&str, Operand<'_>> {
    let (input, operand) = alt((
        delimited(tag("["), n_parse_i, tag("]")),
        delimited(tag("["), n_parse_const, tag("]")),
    ))
    .parse(input)?;
    match operand {
        Operand::I => Ok((input, Operand::MemI)),
        Operand::Const(value) => Ok((input, Operand::MemConst(value))),
        _ => Err(NomErr::Error(Error::new(input, ErrorKind::NoneOf))),
    }
}

fn n_parse_label(input: &str) -> IResult<&str, Operand<'_>> {
    let (input, label) = take_till(|c| [' ', '\n'].contains(&c)).parse(input)?;
    Ok((input, Operand::Label(label)))
}

fn n_parse_instruction(input: &str) -> IResult<&str, Instruction> {
    let (input, parsed) = alt((
        tag_no_case("add"),
        tag_no_case("sub"),
        tag_no_case("cmp"),
        tag_no_case("inc"),
        tag_no_case("dec"),
        tag_no_case("and"),
        tag_no_case("or"),
        tag_no_case("not"),
        tag_no_case("shr"),
        tag_no_case("shl"),
        tag_no_case("jmp"),
        tag_no_case("jz"),
        tag_no_case("js"),
        tag_no_case("jc"),
        tag_no_case("jo"),
        tag_no_case("jp"),
        tag_no_case("mov"),
        tag_no_case("nop"),
    ))
    .parse(input)?;
    let instruction = match parsed.to_lowercase().as_str() {
        "add" => Instruction::Add,
        "sub" => Instruction::Sub,
        "cmp" => Instruction::Cmp,
        "inc" => Instruction::Inc,
        "dec" => Instruction::Dec,
        "and" => Instruction::And,
        "or" => Instruction::Or,
        "not" => Instruction::Not,
        "shr" => Instruction::Shr,
        "shl" => Instruction::Shl,
        "jmp" => Instruction::Jmp,
        "jz" => Instruction::Jz,
        "js" => Instruction::Js,
        "jc" => Instruction::Jc,
        "jo" => Instruction::Jo,
        "jp" => Instruction::Jp,
        "mov" => Instruction::Mov,
        "nop" => Instruction::Nop,
        _ => return Err(NomErr::Error(Error::new(input, ErrorKind::NoneOf))),
    };
    Ok((input, instruction))
}

/// The outcome of a nom parser in the library's terms.
fn from_nom<'a, T>(r: IResult<&'a str, T>) -> Result<(&'a str, T), ParseError> {
    match r {
        Ok(v) => Ok(v),
        Err(NomErr::Incomplete(_)) => Err(ParseError::Incomplete),
        Err(NomErr::Error(_)) | Err(NomErr::Failure(_)) => Err(ParseError::Invalid),
    }
}

const PIECES: [&str; 40] = [
    "mov", "MOV", "Mov", "add", "sub", "cmp", "inc", "dec", "and", "or", "not", "shr", "jmp",
    "jz", "JP", "nop", "j", "a", "n", "A", "B", "I", "[", "]", "[I]", "80H", "1f", "h", "+F",
    "é", "LOOP", ":", ",", " ", "\t", "\n", "\n", " ", "x", "K",
];

/// A small deterministic generator of inputs made of the pieces above.
fn inputs() -> Vec<String> {
    let mut state: u64 = 0x2545_f491_4f6c_dd1d;
    let mut next = move |bound: u64| {
        state ^= state << 13;
        state ^= state >> 7;
        state ^= state << 17;
        state % bound
    };
    let mut out = vec![String::new()];
    for piece in PIECES.iter() {
        out.push(piece.to_string());
    }
    for _ in 0..30000 {
        let count = next(8);
        let mut s = String::new();
        for _ in 0..count {
            s.push_str(PIECES[next(PIECES.len() as u64) as usize]);
        }
        out.push(s);
    }
    out
}

#[test]
fn parsers_agree_with_nom() {
    for input in inputs() {
        let s = input.as_str();
        assert_eq!(parse_file(s), from_nom(n_parse_file(s)), "file {:?}", s);
        assert_eq!(parse_statement(s), from_nom(n_parse_statement(s)), "statement {:?}", s);
        assert_eq!(end_of_statement(s), from_nom(n_end_of_statement(s)), "end {:?}", s);
        assert_eq!(
            parse_label_declaration(s),
            from_nom(n_parse_label_declaration(s)),
            "declaration {:?}",
            s
        );
        assert_eq!(parse_operation(s), from_nom(n_parse_operation(s)), "operation {:?}", s);
        assert_eq!(parse_no_inst_op(s), from_nom(n_parse_no_inst_op(s)), "no operand {:?}", s);
        assert_eq!(parse_single_inst_op(s), from_nom(n_parse_single_inst_op(s)), "one {:?}", s);
        assert_eq!(parse_dual_inst_op(s), from_nom(n_parse_dual_inst_op(s)), "two {:?}", s);
        assert_eq!(parse_operand(s), from_nom(n_parse_operand(s)), "operand {:?}", s);
        assert_eq!(parse_a(s), from_nom(n_parse_a(s)), "a {:?}", s);
        assert_eq!(parse_b(s), from_nom(n_parse_b(s)), "b {:?}", s);
        assert_eq!(parse_i(s), from_nom(n_parse_i(s)), "i {:?}", s);
        assert_eq!(parse_const(s), from_nom(n_parse_const(s)), "const {:?}", s);
        assert_eq!(parse_mem(s), from_nom(n_parse_mem(s)), "mem {:?}", s);
        assert_eq!(parse_label(s), from_nom(n_parse_label(s)), "label {:?}", s);
        assert_eq!(parse_instruction(s), from_nom(n_parse_instruction(s)), "instruction {:?}", s);
    }
}

