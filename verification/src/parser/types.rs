use vstd::prelude::*;

verus! {

/// One line of an assembly program: a label declaration or an operation
/// with up to two operands.
#[derive(PartialEq, Debug)]
pub enum Statement<'a> {
    Label(&'a str),
    Operation(Instruction, Option<Operand<'a>>, Option<Operand<'a>>),
}

/// The mnemonics of the instruction set.
#[derive(PartialEq, Eq, Structural, Debug, Clone, Copy)]
pub enum Instruction {
    Add,
    Sub,
    Cmp,
    Inc,
    Dec,
    And,
    Or,
    Not,
    Shr,
    Shl,
    Jmp,
    Jz,
    Js,
    Jc,
    Jo,
    Jp,
    Mov,
    Nop,
}

/// An operand: a label reference, a register, a memory cell or a constant.
#[derive(PartialEq, Debug)]
pub enum Operand<'a> {
    Label(&'a str),
    A,
    B,
    I,
    MemI,
    Const(u8),
    MemConst(u8),
}

/// The mathematical value of an [`Operand`]: a label is seen by its characters.
pub enum SpecOperand {
    Label(Seq<char>),
    A,
    B,
    I,
    MemI,
    Const(u8),
    MemConst(u8),
}

/// The mathematical value of a [`Statement`].
pub enum SpecStatement {
    Label(Seq<char>),
    Operation(Instruction, Option<SpecOperand>, Option<SpecOperand>),
}

impl<'a> View for Operand<'a> {
    type V = SpecOperand;

    open spec fn view(&self) -> SpecOperand {
        match self {
            Operand::Label(l) => SpecOperand::Label(l@),
            Operand::A => SpecOperand::A,
            Operand::B => SpecOperand::B,
            Operand::I => SpecOperand::I,
            Operand::MemI => SpecOperand::MemI,
            Operand::Const(v) => SpecOperand::Const(*v),
            Operand::MemConst(v) => SpecOperand::MemConst(*v),
        }
    }
}

/// The view of an optional operand.
pub open spec fn opt_operand_view(o: Option<Operand<'_>>) -> Option<SpecOperand> {
    match o {
        Some(op) => Some(op@),
        None => None,
    }
}

impl<'a> DeepView for Operand<'a> {
    type V = SpecOperand;

    open spec fn deep_view(&self) -> SpecOperand {
        self@
    }
}

impl View for Instruction {
    type V = Instruction;

    open spec fn view(&self) -> Instruction {
        *self
    }
}

impl DeepView for Instruction {
    type V = Instruction;

    open spec fn deep_view(&self) -> Instruction {
        *self
    }
}

impl<'a> View for Statement<'a> {
    type V = SpecStatement;

    open spec fn view(&self) -> SpecStatement {
        match self {
            Statement::Label(l) => SpecStatement::Label(l@),
            Statement::Operation(i, a, b) => SpecStatement::Operation(
                *i,
                opt_operand_view(*a),
                opt_operand_view(*b),
            ),
        }
    }
}

impl<'a> DeepView for Statement<'a> {
    type V = SpecStatement;

    open spec fn deep_view(&self) -> SpecStatement {
        self@
    }
}

} // verus!
