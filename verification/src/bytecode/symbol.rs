use vstd::prelude::*;

verus! {

/// A name in a program, such as a variable or a type.
#[derive(Debug, PartialEq)]
pub struct Symbol {
    tk: String,
}

/// The symbol named by `s`.
pub closed spec fn symbol_from(s: String) -> Symbol {
    Symbol { tk: s }
}

impl View for Symbol {
    type V = Seq<char>;

    closed spec fn view(&self) -> Seq<char> {
        self.tk@
    }
}

/// A symbol made from a string is seen as that string's characters.
pub proof fn lemma_symbol_from_view(s: String)
    ensures
        symbol_from(s)@ == s@,
{
}

impl Symbol {
    /// The string that names the symbol.
    pub closed spec fn name(&self) -> String {
        self.tk
    }

    /// The symbol with the given name.
    pub fn from_string(s: String) -> (r: Symbol)
        ensures
            r == symbol_from(s),
            r@ == s@,
    {
        Symbol { tk: s }
    }

    /// The symbol an identifier token names.
    pub fn new(tk: crate::lexer::token::Token) -> (r: Result<Symbol, crate::parser::ParseError>)
        ensures
            r == crate::parser::grammar::p_symbol(tk),
            match tk.1 {
                crate::lexer::token::TokenKind::Identifier(s) => r matches Ok(sym) && sym@ == s@,
                _ => r is Err,
            },
    {
        match tk.1 {
            crate::lexer::token::TokenKind::Identifier(s) => Ok(Symbol { tk: s }),
            _ => Err(crate::parser::ParseError::from_other("Failed to assemble ident from token")),
        }
    }

    /// The symbol named by a string slice.
    pub fn from_str(s: &str) -> (r: Symbol)
        ensures
            r@ == s@,
    {
        Symbol { tk: crate::text::string_from_str(s) }
    }

    pub fn id(&self) -> (r: &String)
        ensures
            symbol_from(*r) == *self,
            *r == self.name(),
            r@ == self@,
    {
        &self.tk
    }

    /// Whether two symbols have the same name.
    pub fn same(&self, other: &Symbol) -> (r: bool)
        ensures
            r == (self@ == other@),
    {
        self.tk == other.tk
    }

    /// A copy of the symbol.
    pub fn duplicate(&self) -> (r: Symbol)
        ensures
            r == *self,
    {
        Symbol { tk: self.tk.clone() }
    }
}

} // verus!
