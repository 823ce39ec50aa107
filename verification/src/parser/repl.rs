//! The parser for lines typed at the prompt: items and single declarations.

use vstd::prelude::*;
use crate::ast::tree::{AbstractTree, Item, StmtV, TreeV, FunctionV, stmt_info};
use crate::lexer::token::{Token, TokenKind};
use super::{ParseInfo, ParseError};
use super::basic::{BasicParser, Parser, itv, rsv, moved};
use super::grammar::{PState, at_end, p_next, p_declaration};

verus! {

/// What a line at the prompt holds: an item, or a declaration.
pub enum ReplItem {
    ParserItem(Item<ParseInfo>),
    Declaration(AbstractTree<ParseInfo>),
}

/// A line item seen mathematically.
pub enum ReplItemV {
    ParserItem(FunctionV<ParseInfo>),
    Declaration(TreeV<ParseInfo>),
}

/// What the parser records at a statement, seen mathematically.
pub open spec fn stv_info(s: StmtV<ParseInfo>) -> ParseInfo {
    match s {
        StmtV::ExpressionStatement { information, .. } => information,
        StmtV::PrintStatement { information, .. } => information,
        StmtV::VarStatement { information, .. } => information,
        StmtV::Absent => ParseInfo { scope_depth: 0, current_symbol_table: 0, frame_data: 0 },
    }
}

/// The next line item: an item where the next token is `fun`, a
/// declaration otherwise.
pub open spec fn p_repl_next(t: Seq<Token>, s: PState) -> (PState, Result<ReplItemV, ParseError>) {
    if s.pos < t.len() {
        if t[s.pos as int].1 is Fun {
            match p_next(t, s) {
                (s1, Ok(f)) => (s1, Ok(ReplItemV::ParserItem(f))),
                (s1, Err(e)) => (s1, Err(e)),
            }
        } else {
            match p_declaration(t, s) {
                (s1, Ok(st)) => (s1, Ok(ReplItemV::Declaration(TreeV::Statement(st, stv_info(st))))),
                (s1, Err(e)) => (s1, Err(e)),
            }
        }
    } else {
        (s, Err(ParseError::Other { msg: "no token found" }))
    }
}

/// The line items after `acc`, up to the end of the tokens.
pub open spec fn p_repl_parse(t: Seq<Token>, s: PState, acc: Seq<ReplItemV>) -> (PState, Result<Seq<ReplItemV>, ParseError>)
    decreases t.len() - s.pos,
{
    if s.pos > t.len() {
        (s, Err(ParseError::Other { msg: "no token found" }))
    } else if at_end(t, s) {
        (s, Ok(acc))
    } else {
        let (s1, r) = p_repl_next(t, s);
        match r {
            Err(e) => (s1, Err(e)),
            Ok(x) => if s.pos < s1.pos && s1.pos <= t.len() {
                p_repl_parse(t, s1, acc.push(x))
            } else {
                (s1, Ok(acc.push(x)))
            },
        }
    }
}

/// A line item seen mathematically.
pub open spec fn riv_repl(i: ReplItem) -> ReplItemV {
    match i {
        ReplItem::ParserItem(x) => ReplItemV::ParserItem(itv(x)),
        ReplItem::Declaration(tr) => ReplItemV::Declaration(crate::ast::tree::tv(tr)),
    }
}

/// The parser for lines at the prompt, over a basic parser.
pub struct ReplParser {
    internal: BasicParser,
}

impl ReplParser {
    pub closed spec fn inner(&self) -> BasicParser {
        self.internal
    }

    pub fn new(bp: BasicParser) -> (r: ReplParser)
        ensures
            r.inner() == bp,
    {
        ReplParser { internal: bp }
    }

    /// Gives up the parser for the basic parser within.
    pub fn into_inner(self) -> (r: BasicParser)
        ensures
            r == self.inner(),
    {
        self.internal
    }

    /// The next line item.
    pub fn next(&mut self) -> (r: Result<ReplItem, ParseError>)
        requires
            old(self).inner().wf(),
        ensures
            moved(old(self).inner(), final(self).inner()),
            (final(self).inner().st(), match r {
                Ok(x) => Ok(riv_repl(x)),
                Err(e) => Err(e),
            }) == p_repl_next(old(self).inner().toks(), old(self).inner().st()),
            r is Ok ==> old(self).inner().st().pos < final(self).inner().st().pos,
    {
        let is_fun = match self.internal.peek() {
            Some(token) => match token.1 {
                TokenKind::Fun => Some(true),
                _ => Some(false),
            },
            None => None,
        };
        match is_fun {
            Some(true) => match self.internal.next() {
                Ok(item) => Ok(ReplItem::ParserItem(item)),
                Err(e) => Err(e),
            },
            Some(false) => match self.internal.declaration() {
                Ok(x) => {
                    let info = *x.information();
                    Ok(ReplItem::Declaration(AbstractTree::statement(x, info)))
                },
                Err(e) => Err(e),
            },
            None => Err(ParseError::from_other("no token found")),
        }
    }

    /// All the line items, up to the end of the tokens.
    pub fn parse(&mut self) -> (r: Result<Vec<ReplItem>, ParseError>)
        requires
            old(self).inner().wf(),
        ensures
            moved(old(self).inner(), final(self).inner()),
            (final(self).inner().st(), match r {
                Ok(v) => Ok(Seq::new(v@.len(), |i: int| riv_repl(v@[i]))),
                Err(e) => Err(e),
            }) == p_repl_parse(old(self).inner().toks(), old(self).inner().st(), seq![]),
    {
        let ghost t = self.inner().toks();
        let mut trees: Vec<ReplItem> = Vec::new();
        assert(Seq::new(trees@.len(), |i: int| riv_repl(trees@[i])) =~= Seq::<ReplItemV>::empty());
        while !self.internal.is_at_end()
            invariant
                self.inner().wf(),
                self.inner().toks() == t,
                t == old(self).inner().toks(),
                old(self).inner().st().pos <= self.inner().st().pos,
                p_repl_parse(t, old(self).inner().st(), seq![]) == p_repl_parse(
                    t,
                    self.inner().st(),
                    Seq::new(trees@.len(), |i: int| riv_repl(trees@[i])),
                ),
            decreases t.len() - self.inner().st().pos,
        {
            let ghost acc = Seq::new(trees@.len(), |i: int| riv_repl(trees@[i]));
            match self.next() {
                Ok(item) => {
                    trees.push(item);
                    assert(Seq::new(trees@.len(), |i: int| riv_repl(trees@[i])) =~= acc.push(riv_repl(item)));
                },
                Err(e) => {
                    return Err(e);
                },
            }
        }
        Ok(trees)
    }
}

impl Parser for ReplParser {
    type Out = ReplItem;

    fn parse_all(&mut self) -> (r: Result<Vec<ReplItem>, ParseError>)
        ensures
            old(self).inner().wf() ==> (final(self).inner().st(), match r {
                Ok(v) => Ok(Seq::new(v@.len(), |i: int| riv_repl(v@[i]))),
                Err(e) => Err(e),
            }) == p_repl_parse(old(self).inner().toks(), old(self).inner().st(), seq![]),
    {
        if self.internal.ready() {
            self.parse()
        } else {
            Err(ParseError::from_other("parser state is inconsistent"))
        }
    }
}

} // verus!
