# assembler

A two-pass assembler for a small 8-bit instruction set.

- `src/parser/grammar.rs` states the assembly language as spec functions over
  the characters of the source; `src/parser/cursor.rs` implements each rule
  and is proved to compute exactly what the rule says; `src/parser/mod.rs`
  offers the parsers on `&str`.
- `src/parser/properties.rs` proves that every statement consumes input and
  that reading a file never fails.
- `src/assembler.rs` encodes statements: the first pass gives labels their
  addresses, the second emits bytes. Its proofs relate the two passes.
- `src/labels.rs` is the table from label names to addresses.
- `app/` is the command-line program: argument parsing and file I/O.
