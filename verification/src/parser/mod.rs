//! The parser: tokens to items and statements, with their symbol tables.

use vstd::prelude::*;

pub mod grammar;
mod basic;
mod repl;
mod ident;

pub use self::basic::{BasicParser, Parser, rv, rsv, itv, riv, rivs, moved};
pub use self::repl::{ReplItem, ReplItemV, ReplParser, stv_info, p_repl_next, p_repl_parse, riv_repl};
pub use self::ident::Identifier;
use crate::ast::symbol::{ExtSymbolTable, ExtFrameData};
use crate::lexer::token::{Token, TokenKind};
use crate::text::{string_from_str, push_str, push_dec, dec_digits};

verus! {

/// What the parser records at each node: the nesting depth of its scope, its
/// symbol table and the frame data of its function.
#[derive(Debug, Clone, Copy, PartialEq, Eq, Structural)]
pub struct ParseInfo {
    pub scope_depth: usize,
    pub current_symbol_table: ExtSymbolTable,
    pub frame_data: ExtFrameData,
}

impl ParseInfo {
    pub fn new(sd: usize, curr_sym: ExtSymbolTable, frame_data: ExtFrameData) -> (r: ParseInfo)
        ensures
            r == (ParseInfo { scope_depth: sd, current_symbol_table: curr_sym, frame_data }),
    {
        ParseInfo { scope_depth: sd, current_symbol_table: curr_sym, frame_data }
    }
}

/// Why parsing failed: at a token, or otherwise.
#[derive(Debug)]
pub enum ParseError {
    TokenError { token: Token, msg: &'static str },
    Other { msg: &'static str },
}

impl ParseError {
    pub fn from_token(token: Token, msg: &'static str) -> (r: ParseError)
        ensures
            r == (ParseError::TokenError { token, msg }),
    {
        ParseError::TokenError { token, msg }
    }

    pub fn from_other(msg: &'static str) -> (r: ParseError)
        ensures
            r == (ParseError::Other { msg }),
    {
        ParseError::Other { msg }
    }
}

/// How a parse error is written in messages.
pub open spec fn parse_error_text(e: ParseError) -> Seq<char> {
    match e {
        ParseError::TokenError { token, msg } => if token@.kind is Eof {
            "[Parse] Error: "@ + msg@ + " at end of file"@
        } else {
            "[Parse] Error: "@ + msg@ + " at line "@ + dec_digits(token@.line) + ", character "@ + dec_digits(
                token@.begin,
            )
        },
        ParseError::Other { msg } => "[Parse] Error: "@ + msg@,
    }
}

impl ParseError {
    /// The error as messages write it.
    pub fn describe(&self) -> (r: String)
        ensures
            r@ == parse_error_text(*self),
    {
        let mut out = string_from_str("[Parse] Error: ");
        match self {
            ParseError::TokenError { token, msg } => {
                push_str(&mut out, msg);
                match &token.1 {
                    TokenKind::Eof => push_str(&mut out, " at end of file"),
                    _ => {
                        push_str(&mut out, " at line ");
                        push_dec(&mut out, token.line_num() as u64);
                        push_str(&mut out, ", character ");
                        push_dec(&mut out, token.char_loc() as u64);
                    },
                }
            },
            ParseError::Other { msg } => push_str(&mut out, msg),
        }
        assert(out@ =~= parse_error_text(*self));
        out
    }
}

} // verus!
