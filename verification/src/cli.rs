//! The command line of the assembler program.
use vstd::prelude::*;

verus! {

/// The arguments of the program: one subcommand.
pub struct Args {
    pub command: Commands,
}

/// The subcommands of the program.
pub enum Commands {
    /// Assemble the source file `input` into the binary file `output`.
    Parse { input: String, output: String },
}

} // verus!
