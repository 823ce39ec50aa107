//! A small language toolchain: a lexer, a parser with scoped symbol tables,
//! a type checker, a bytecode compiler, a bytecode file format with its
//! assembler and reader, and the step function of a stack machine.

pub mod ast;
pub mod bytecode;
pub mod lexer;
pub mod parser;
pub mod repl;
pub mod text;
pub mod vm;
