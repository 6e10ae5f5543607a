//! A small two-pass assembler: a parser for the assembly language and an
//! encoder that turns parsed statements into machine code bytes.
pub mod assembler;
pub mod cli;
pub mod labels;
pub mod parser;

pub use assembler::{
    assemble_double_operands, assemble_instruction, assemble_program, assemble_statement,
    first_pass, fits_address_space, second_pass,
};
pub use cli::{Args, Commands};
pub use labels::LabelTable;
pub use parser::grammar::ParseError;
pub use parser::types::{Instruction, Operand, Statement};
pub use parser::{
    end_of_statement, parse_a, parse_b, parse_const, parse_dual_inst_op, parse_file, parse_i,
    parse_instruction, parse_label, parse_label_declaration, parse_mem, parse_no_inst_op,
    parse_operand, parse_operation, parse_single_inst_op, parse_statement, PResult,
};
