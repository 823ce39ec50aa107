# theta_lang

A small language toolchain whose logic is verified with Verus:

- `lexer`: source characters to tokens;
- `parser`: tokens to items, declarations and statements, with symbol tables
  kept in an arena (`ast::symbol::Scopes`);
- `ast::transformers`: a type checker and a bytecode generator;
- `bytecode`: chunks of instructions, the binary assembler, the reader of
  assembled files, and readable listings;
- `vm`: the stack machine, run one step at a time (`VM::begin`, `VM::step`),
  its call stack and its tables of names;
- `repl`: compiling the items of a line at the prompt into a bitstream of
  functions and a chunk of declarations;
- `text`: numerals and character-order comparison used by the above.

Each public function states what it returns in terms of a spec function of
the same module (for example `step_spec` for the machine, `p_declaration` for
the parser, `bc_expr` for code generation, `decode_bitstream` for the file
reader). Laws that relate several functions are public proof functions
(`lemma_merge_laws`, `lemma_pool_roundtrip`, `lemma_define_then_read_global`,
and others).

Where an input cannot be processed at all (a machine state in which an
instruction cannot be carried out, bytes that are no file of the machine, text
that starts no token, a line whose code cannot be placed), the function that
processes it (`VM::begin`, `VM::step`, `walk_constant_pool`, `walk_function_pool`,
`walk_bitstream`, `walk_chunk`, `BasicLexer::lex` and `scan_token`,
`StringDisassembler::disassemble_chunk`, `compile_items`) requires that it can,
and a `try_` or `read_` function beside it checks the input and names the fault
in its error.

`app/` holds the command-line tools around the library: file and console
input and output, argument parsing, logging, and parsing float literals into
bit patterns. The prompt compiles each line and stops there: assembling a
bitstream, which loading compiled code into the machine goes through, is not
implemented, so no tool runs the machine; a caller that does runs `VM::step`
in a loop, prints what a step hands out, and carries out the arithmetic on
doubles that a step leaves to it.
