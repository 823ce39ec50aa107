//! Identifiers read from tokens.

use vstd::prelude::*;
use crate::lexer::token::{Token, TokenKind};
use super::ParseError;

verus! {

/// The name carried by an identifier token.
#[derive(Debug)]
pub struct Identifier {
    tk: String,
}

impl View for Identifier {
    type V = Seq<char>;

    closed spec fn view(&self) -> Seq<char> {
        self.tk@
    }
}

impl Identifier {
    /// The identifier a token carries; only an identifier token carries one.
    pub fn new(tk: Token) -> (r: Result<Identifier, ParseError>)
        ensures
            match tk.1 {
                TokenKind::Identifier(s) => r matches Ok(id) && id@ == s@,
                _ => r == Err::<Identifier, ParseError>(
                    ParseError::Other { msg: "Failed to assemble ident from token" },
                ),
            },
    {
        match tk.1 {
            TokenKind::Identifier(s) => Ok(Identifier { tk: s }),
            _ => Err(ParseError::from_other("Failed to assemble ident from token")),
        }
    }

    pub fn id(&self) -> (r: &String)
        ensures
            r@ == self@,
    {
        &self.tk
    }

    /// The identifier with the given name.
    pub fn from_string(s: String) -> (r: Identifier)
        ensures
            r@ == s@,
    {
        Identifier { tk: s }
    }

    /// The identifier named by a string slice.
    pub fn from_str(s: &str) -> (r: Identifier)
        ensures
            r@ == s@,
    {
        Identifier { tk: crate::text::string_from_str(s) }
    }
}

} // verus!
