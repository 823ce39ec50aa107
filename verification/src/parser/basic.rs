//! The recursive-descent parser.

use vstd::prelude::*;
use crate::ast::symbol::{
    Scopes, SymbolTable, SymbolData, FrameData, ExtSymbolTable, ExtFrameData, tables_wf, nesting, empty_table,
    default_table, fresh_frame, TableView,
};
use crate::ast::transformers::typeck::TypeInformation;
use crate::ast::tree::{
    Expression, Statement, AbstractTree, Function, FunctionArg, Item, ExprV, StmtV, FunctionV, ev, sv, fv, expr_info,
};
use crate::bytecode::Symbol;
use crate::lexer::token::{Token, TokenKind, TokenType};
use super::{ParseInfo, ParseError};
use super::grammar::{PState, at_end, check, adv, prog, info, eos, p_consume, p_consume_ident, p_symbol, p_type, begin_scope, end_scope, literal_kind, sync_loop, p_sync, p_expression, p_block, p_block_loop, p_declaration, p_var, p_var_rest, p_statement, p_print, p_expr_stmt, p_if, p_while, p_assignment, binary_level, p_binary, p_operand, p_binary_loop, p_equality, p_unary, p_primary, p_seq_loop, p_args, p_ret, p_item, fresh_item, p_next, p_parse};

verus! {

/// The parser's result for an expression, seen mathematically.
pub open spec fn rv(r: Result<Expression<ParseInfo>, ParseError>) -> Result<ExprV<ParseInfo>, ParseError> {
    match r {
        Ok(e) => Ok(ev(e)),
        Err(x) => Err(x),
    }
}

/// The parser's result for a statement, seen mathematically.
pub open spec fn rsv(r: Result<Statement<ParseInfo>, ParseError>) -> Result<StmtV<ParseInfo>, ParseError> {
    match r {
        Ok(s) => Ok(sv(s)),
        Err(x) => Err(x),
    }
}

/// The parser: the tokens, the position in them, the symbol tables and
/// frame data made so far, and the current and root tables and the frame.
pub struct BasicParser {
    tokens: Vec<Token>,
    pos: usize,
    scopes: Scopes,
    symbol_tbl: ExtSymbolTable,
    root_symbol_tbl: ExtSymbolTable,
    frame_data: ExtFrameData,
}

impl BasicParser {
    pub closed spec fn toks(&self) -> Seq<Token> {
        self.tokens@
    }

    pub closed spec fn st(&self) -> PState {
        PState {
            pos: self.pos as nat,
            tables: self.scopes.tables(),
            frames: self.scopes.frames(),
            cur: self.symbol_tbl as nat,
            root: self.root_symbol_tbl as nat,
            frame: self.frame_data as nat,
        }
    }

    /// The position is within the tokens, the current and root tables and the
    /// frame exist, tables are enclosed only by earlier ones, and the frame
    /// has fewer slots than tokens read.
    pub open spec fn wf(&self) -> bool {
        let s = self.st();
        &&& s.pos <= self.toks().len()
        &&& s.cur < s.tables.len()
        &&& s.root < s.tables.len()
        &&& s.frame < s.frames.len()
        &&& tables_wf(s.tables)
        &&& s.frames[s.frame as int].params + s.frames[s.frame as int].locals <= s.pos
    }

    /// Whether the parser is well formed.
    pub fn ready(&self) -> (r: bool)
        ensures
            r == self.wf(),
    {
        let n = self.scopes.table_count();
        if !(self.pos <= self.tokens.len() && self.symbol_tbl < n && self.root_symbol_tbl < n
            && self.frame_data < self.scopes.frame_count()) {
            return false;
        }
        let f = self.scopes.frame(self.frame_data);
        if f.total_params() > self.pos || f.total_locals() > self.pos - f.total_params() {
            return false;
        }
        let mut i: usize = 0;
        while i < n
            invariant
                i <= n,
                n == self.scopes.tables().len(),
                forall|k: int|
                    0 <= k < i ==> match #[trigger] self.scopes.tables()[k].enclosing {
                        Some(j) => j < k,
                        None => true,
                    },
            decreases n - i,
        {
            match self.scopes.enclosing(i) {
                Some(j) => {
                    if j >= i {
                        return false;
                    }
                },
                None => {},
            }
            i = i + 1;
        }
        true
    }

    /// A parser of `token_stream`, with a table of the built-in types.
    pub fn new(token_stream: Vec<Token>) -> (r: BasicParser)
        ensures
            r.wf(),
            r.toks() == token_stream@,
            r.st() == (PState {
                pos: 0,
                tables: seq![default_table()],
                frames: seq![fresh_frame()],
                cur: 0,
                root: 0,
                frame: 0,
            }),
    {
        let mut scopes = Scopes::new();
        let t = scopes.push_table(SymbolTable::default());
        let f = scopes.push_frame(FrameData::new());
        let r = BasicParser { tokens: token_stream, pos: 0, scopes, symbol_tbl: t, root_symbol_tbl: t, frame_data: f };
        assert(r.st().tables =~= seq![default_table()]);
        assert(r.st().frames =~= seq![fresh_frame()]);
        r
    }

    /// A parser of `token_stream` that goes on with the tables of `scopes`,
    /// with table `sym` as its root, and fresh frame data.
    pub fn new_sym(token_stream: Vec<Token>, scopes: Scopes, sym: ExtSymbolTable) -> (r: BasicParser)
        requires
            sym < scopes.tables().len(),
            tables_wf(scopes.tables()),
        ensures
            r.wf(),
            r.toks() == token_stream@,
            r.st() == (PState {
                pos: 0,
                tables: scopes.tables(),
                frames: scopes.frames().push(fresh_frame()),
                cur: sym as nat,
                root: sym as nat,
                frame: scopes.frames().len(),
            }),
    {
        let mut scopes = scopes;
        let f = scopes.push_frame(FrameData::new());
        BasicParser { tokens: token_stream, pos: 0, scopes, symbol_tbl: sym, root_symbol_tbl: sym, frame_data: f }
    }

    /// The symbol tables and frame data made so far.
    pub fn scopes(&self) -> (r: &Scopes)
        ensures
            r.tables() == self.st().tables,
            r.frames() == self.st().frames,
    {
        &self.scopes
    }

    /// Gives up the parser for its symbol tables and frame data.
    pub fn into_scopes(self) -> (r: Scopes)
        ensures
            r.tables() == self.st().tables,
            r.frames() == self.st().frames,
    {
        self.scopes
    }

    /// The current symbol table.
    pub fn current_table(&self) -> (r: ExtSymbolTable)
        ensures
            r == self.st().cur,
    {
        self.symbol_tbl
    }

    /// The frame data of the current function.
    pub fn current_frame(&self) -> (r: ExtFrameData)
        ensures
            r == self.st().frame,
    {
        self.frame_data
    }

    /// The next token, if any is left.
    pub fn peek(&self) -> (r: Option<&Token>)
        ensures
            r == (if self.st().pos < self.toks().len() {
                Some(&self.toks()[self.st().pos as int])
            } else {
                None::<&Token>
            }),
    {
        if self.pos < self.tokens.len() {
            Some(&self.tokens[self.pos])
        } else {
            None
        }
    }

    /// Whether the tokens are used up: none is left, or the next is the end of file.
    pub fn is_at_end(&self) -> (r: bool)
        ensures
            r == at_end(self.toks(), self.st()),
    {
        match self.peek() {
            Some(tok) => match tok.1 {
                TokenKind::Eof => true,
                _ => false,
            },
            None => true,
        }
    }

    /// Takes the next token.
    fn advance(&mut self) -> (r: Option<Token>)
        requires
            old(self).wf(),
        ensures
            final(self).wf(),
            final(self).toks() == old(self).toks(),
            old(self).st().pos < old(self).toks().len() ==> final(self).st() == adv(old(self).st()) && r == Some(
                old(self).toks()[old(self).st().pos as int],
            ),
            old(self).st().pos >= old(self).toks().len() ==> final(self).st() == old(self).st() && r is None,
    {
        if self.pos < self.tokens.len() {
            let tok = self.tokens[self.pos].duplicate();
            self.pos = self.pos + 1;
            Some(tok)
        } else {
            None
        }
    }

    /// Whether the next token, before the end, is of kind `k`.
    fn check(&self, k: &TokenType) -> (r: bool)
        ensures
            r == check(self.toks(), self.st(), k@),
    {
        if self.is_at_end() {
            false
        } else {
            self.tokens[self.pos].1.same(k)
        }
    }

    /// Takes the next token if it is of kind `tt`; else reports it with `msg`.
    fn consume(&mut self, tt: TokenType, msg: &'static str) -> (r: Result<Token, ParseError>)
        requires
            old(self).wf(),
        ensures
            final(self).wf(),
            final(self).toks() == old(self).toks(),
            (final(self).st(), r) == p_consume(old(self).toks(), old(self).st(), tt@, msg),
    {
        if self.check(&tt) {
            match self.advance() {
                Some(tok) => Ok(tok),
                None => Err(ParseError::from_other("Unexpected EOS")),
            }
        } else {
            match self.peek() {
                Some(tok) => Err(ParseError::from_token(tok.duplicate(), msg)),
                None => Err(ParseError::from_other("Unexpected EOS")),
            }
        }
    }

    /// Takes the next token if it is an identifier; else reports it with `msg`.
    fn consume_ident(&mut self, msg: &'static str) -> (r: Result<Token, ParseError>)
        requires
            old(self).wf(),
        ensures
            final(self).wf(),
            final(self).toks() == old(self).toks(),
            (final(self).st(), r) == p_consume_ident(old(self).toks(), old(self).st(), msg),
    {
        match self.peek() {
            Some(tok) => {
                if tok.1.is_ident() {
                    match self.advance() {
                        Some(t) => Ok(t),
                        None => Err(ParseError::from_other("Unexpected EOS")),
                    }
                } else {
                    Err(ParseError::from_token(tok.duplicate(), msg))
                }
            },
            None => Err(ParseError::from_other("Unexpected EOS")),
        }
    }

    /// Skips tokens after an error, up to the end of the statement or to the
    /// start of the next one.
    fn synchronize(&mut self)
        requires
            old(self).wf(),
        ensures
            final(self).wf(),
            final(self).toks() == old(self).toks(),
            final(self).st() == p_sync(old(self).toks(), old(self).st()),
            old(self).st().pos <= final(self).st().pos,
    {
        let ghost t = self.toks();
        let mut tok = self.advance();
        while !self.is_at_end()
            invariant
                self.wf(),
                self.toks() == t,
                t == old(self).toks(),
                old(self).st().pos <= self.st().pos,
                p_sync(t, old(self).st()) == sync_loop(t, self.st(), tok),
            decreases t.len() - self.st().pos,
        {
            match &tok {
                Some(inner) => {
                    match inner.1 {
                        TokenKind::Semicolon => {
                            return;
                        },
                        _ => {},
                    }
                },
                None => {
                    return;
                },
            }
            match &self.tokens[self.pos].1 {
                TokenKind::Class | TokenKind::Fun | TokenKind::Let | TokenKind::For | TokenKind::If
                | TokenKind::While | TokenKind::Return => {
                    return;
                },
                _ => {},
            }
            tok = self.advance();
        }
    }

    /// Makes a new scope, enclosed by the current one, current.
    fn begin_scope(&mut self)
        requires
            old(self).wf(),
        ensures
            final(self).wf(),
            final(self).toks() == old(self).toks(),
            final(self).st() == begin_scope(old(self).st()),
    {
        let t = self.scopes.push_table(SymbolTable::new_enclosed(self.symbol_tbl));
        self.symbol_tbl = t;
    }

    /// Makes the scope that encloses the current one current.
    fn end_scope(&mut self) -> (r: Result<(), ParseError>)
        requires
            old(self).wf(),
        ensures
            final(self).wf(),
            final(self).toks() == old(self).toks(),
            match end_scope(old(self).st()) {
                Ok(s2) => final(self).st() == s2 && r is Ok,
                Err(e) => final(self).st() == old(self).st() && r == Err::<(), ParseError>(e),
            },
    {
        match self.scopes.enclosing(self.symbol_tbl) {
            Some(enc) => {
                self.symbol_tbl = enc;
                Ok(())
            },
            None => Err(ParseError::from_other("failed to end scope")),
        }
    }

    /// What the parser records at a node made now.
    fn info(&self) -> (r: ParseInfo)
        ensures
            r == info(self.st()),
    {
        ParseInfo::new(self.scopes.scope_depth(self.symbol_tbl), self.symbol_tbl, self.frame_data)
    }

    /// The type a type name stands for now.
    fn type_info(&self, ty_ident: &Symbol) -> (r: Result<TypeInformation, ParseError>)
        ensures
            r == p_type(self.st(), *ty_ident),
    {
        let sd = self.scopes.scope_depth(self.symbol_tbl);
        match self.scopes.get_symbol_data(self.symbol_tbl, ty_ident, sd) {
            Some(SymbolData::Type { ty }) => Ok(ty),
            Some(_) => Err(ParseError::from_other("ident is being used by something else")),
            None => Ok(TypeInformation::NonLiteral(ty_ident.duplicate())),
        }
    }
}


/// The parser moved on from `a` to `b`: still well formed, on the same tokens, not back.
pub open spec fn moved(a: BasicParser, b: BasicParser) -> bool {
    &&& b.wf()
    &&& b.toks() == a.toks()
    &&& a.st().pos <= b.st().pos
}

impl BasicParser {
    /// An expression: an if, a while, a block, or an assignment.
    fn expression(&mut self) -> (r: Result<Expression<ParseInfo>, ParseError>)
        requires
            old(self).wf(),
        ensures
            moved(*old(self), *final(self)),
            (final(self).st(), rv(r)) == p_expression(old(self).toks(), old(self).st()),
            r is Ok ==> old(self).st().pos < final(self).st().pos,
        decreases old(self).toks().len() - old(self).st().pos, 17int,
    {
        if self.check(&TokenKind::If) {
            self.advance();
            self.if_expression()
        } else if self.check(&TokenKind::While) {
            self.advance();
            self.while_expression()
        } else if self.check(&TokenKind::LeftBrace) {
            self.advance();
            self.begin_scope();
            let bs = self.block_expression();
            match self.end_scope() {
                Err(e) => {
                    return Err(e);
                },
                Ok(()) => {},
            }
            bs
        } else {
            self.assignment()
        }
    }

    /// A block, after its opening brace: declarations up to the closing brace.
    fn block_expression(&mut self) -> (r: Result<Expression<ParseInfo>, ParseError>)
        requires
            old(self).wf(),
        ensures
            moved(*old(self), *final(self)),
            (final(self).st(), rv(r)) == p_block(old(self).toks(), old(self).st()),
            r is Ok ==> old(self).st().pos < final(self).st().pos,
        decreases old(self).toks().len() - old(self).st().pos, 22int,
    {
        let ghost t = self.toks();
        let ghost s0 = self.st();
        let mut decls: Vec<Statement<ParseInfo>> = Vec::new();
        assert(crate::ast::tree::svs(decls@) =~= Seq::<StmtV<ParseInfo>>::empty());
        while !(self.check(&TokenKind::RightBrace) || self.check(&TokenKind::Eof))
            invariant
                self.wf(),
                self.toks() == t,
                t == old(self).toks(),
                s0 == old(self).st(),
                s0.pos <= self.st().pos,
                p_block_loop(t, s0, seq![]) == p_block_loop(t, self.st(), crate::ast::tree::svs(decls@)),
            decreases t.len() - self.st().pos,
        {
            let ghost acc = crate::ast::tree::svs(decls@);
            match self.declaration() {
                Ok(d) => {
                    decls.push(d);
                    assert(crate::ast::tree::svs(decls@) =~= acc.push(sv(d)));
                },
                Err(e) => {
                    return Err(e);
                },
            }
        }
        self.advance();
        let information = self.info();
        proof {
            crate::ast::tree::lemma_ev_block(decls, information);
        }
        Ok(Expression::BlockExpression { statements: decls, information })
    }

    /// A declaration: a variable declaration or a statement; after an error
    /// the parser recovers and reports the error.
    pub fn declaration(&mut self) -> (r: Result<Statement<ParseInfo>, ParseError>)
        requires
            old(self).wf(),
        ensures
            moved(*old(self), *final(self)),
            (final(self).st(), rsv(r)) == p_declaration(old(self).toks(), old(self).st()),
            r is Ok ==> old(self).st().pos < final(self).st().pos,
        decreases old(self).toks().len() - old(self).st().pos, 20int,
    {
        let stmt = if self.check(&TokenKind::Let) {
            self.advance();
            self.var_declaration()
        } else {
            self.statement()
        };
        match stmt {
            Ok(s) => Ok(s),
            Err(e) => {
                self.synchronize();
                Err(e)
            },
        }
    }

    /// A variable declaration, after `let`.
    fn var_declaration(&mut self) -> (r: Result<Statement<ParseInfo>, ParseError>)
        requires
            old(self).wf(),
        ensures
            moved(*old(self), *final(self)),
            (final(self).st(), rsv(r)) == p_var(old(self).toks(), old(self).st()),
            r is Ok ==> old(self).st().pos < final(self).st().pos,
        decreases old(self).toks().len() - old(self).st().pos, 19int,
    {
        let name = match self.consume_ident("Expected variable name") {
            Ok(t) => t,
            Err(e) => {
                return Err(e);
            },
        };
        let mut ty: Option<Token> = None;
        if self.check(&TokenKind::Colon) {
            self.advance();
            ty = match self.consume_ident("Expected variable type") {
                Ok(t) => Some(t),
                Err(e) => {
                    return Err(e);
                },
            };
        }
        let mut init: Option<Expression<ParseInfo>> = None;
        if self.check(&TokenKind::Equal) {
            self.advance();
            init = match self.expression() {
                Ok(x) => Some(x),
                Err(e) => {
                    return Err(e);
                },
            };
        }
        self.var_rest(name, ty, init)
    }

    /// The end of a variable declaration, once its parts are read.
    fn var_rest(&mut self, name_tk: Token, ty_tok: Option<Token>, init: Option<Expression<ParseInfo>>) -> (r: Result<
        Statement<ParseInfo>,
        ParseError,
    >)
        requires
            old(self).wf(),
        ensures
            moved(*old(self), *final(self)),
            (final(self).st(), rsv(r)) == p_var_rest(
                old(self).toks(),
                old(self).st(),
                name_tk,
                ty_tok,
                match init {
                    Some(x) => Some(ev(x)),
                    None => None,
                },
            ),
    {
        if init.is_none() || ty_tok.is_none() {
            return Err(ParseError::from_other("Expected expression and variable type"));
        }
        let ident = match Symbol::new(name_tk) {
            Ok(s) => s,
            Err(e) => {
                return Err(e);
            },
        };
        let ty_ident = match ty_tok {
            Some(t) => match Symbol::new(t) {
                Ok(s) => s,
                Err(e) => {
                    return Err(e);
                },
            },
            None => {
                return Err(ParseError::from_other("Expected expression and variable type"));
            },
        };
        let ty_info = match self.type_info(&ty_ident) {
            Ok(t) => t,
            Err(e) => {
                return Err(e);
            },
        };
        match self.consume(TokenKind::Semicolon, "Expected ';' after statement") {
            Ok(_) => {},
            Err(e) => {
                return Err(e);
            },
        }
        let scope_depth = self.scopes.scope_depth(self.symbol_tbl);
        if scope_depth == 0 {
            self.scopes.insert_symbol(
                self.symbol_tbl,
                ident.duplicate(),
                SymbolData::GlobalVariable { ty: ty_info },
            );
        } else {
            let li = self.scopes.new_local(self.frame_data);
            self.scopes.insert_symbol(
                self.symbol_tbl,
                ident.duplicate(),
                SymbolData::LocalVariable { ty: ty_info, scope_level: scope_depth, slot: li },
            );
        }
        let init = match init {
            Some(x) => x,
            None => {
                return Err(ParseError::from_other("Expected expression and variable type"));
            },
        };
        Ok(
            Statement::VarStatement {
                ident,
                init,
                information: ParseInfo::new(scope_depth, self.symbol_tbl, self.frame_data),
            },
        )
    }
}


impl BasicParser {
    /// A statement: a print statement, or an expression statement.
    fn statement(&mut self) -> (r: Result<Statement<ParseInfo>, ParseError>)
        requires
            old(self).wf(),
        ensures
            moved(*old(self), *final(self)),
            (final(self).st(), rsv(r)) == p_statement(old(self).toks(), old(self).st()),
            r is Ok ==> old(self).st().pos < final(self).st().pos,
        decreases old(self).toks().len() - old(self).st().pos, 19int,
    {
        let print_kw: TokenType = TokenKind::Identifier(crate::text::string_from_str("print"));
        if self.check(&print_kw) {
            self.advance();
            self.print_statement()
        } else {
            self.expression_statement()
        }
    }

    /// A print statement, after `print`.
    fn print_statement(&mut self) -> (r: Result<Statement<ParseInfo>, ParseError>)
        requires
            old(self).wf(),
        ensures
            moved(*old(self), *final(self)),
            (final(self).st(), rsv(r)) == p_print(old(self).toks(), old(self).st()),
            r is Ok ==> old(self).st().pos < final(self).st().pos,
        decreases old(self).toks().len() - old(self).st().pos, 18int,
    {
        match self.consume(TokenKind::LeftParen, "Expected ( before print statement") {
            Ok(_) => {},
            Err(e) => {
                return Err(e);
            },
        }
        let expression = match self.expression() {
            Ok(x) => x,
            Err(e) => {
                return Err(e);
            },
        };
        match self.consume(TokenKind::RightParen, "Expected ) after print statement") {
            Ok(_) => {},
            Err(e) => {
                return Err(e);
            },
        }
        match self.consume(TokenKind::Semicolon, "Expected ';' after expression") {
            Ok(_) => {},
            Err(e) => {
                return Err(e);
            },
        }
        Ok(Statement::PrintStatement { expression, information: self.info() })
    }

    /// An expression statement.
    fn expression_statement(&mut self) -> (r: Result<Statement<ParseInfo>, ParseError>)
        requires
            old(self).wf(),
        ensures
            moved(*old(self), *final(self)),
            (final(self).st(), rsv(r)) == p_expr_stmt(old(self).toks(), old(self).st()),
            r is Ok ==> old(self).st().pos < final(self).st().pos,
        decreases old(self).toks().len() - old(self).st().pos, 18int,
    {
        let expression = match self.expression() {
            Ok(x) => x,
            Err(e) => {
                return Err(e);
            },
        };
        match self.consume(TokenKind::Semicolon, "Expected ';' after expression") {
            Ok(_) => {},
            Err(e) => {
                return Err(e);
            },
        }
        Ok(Statement::ExpressionStatement { expression, information: self.info() })
    }

    /// An if expression, after `if`.
    fn if_expression(&mut self) -> (r: Result<Expression<ParseInfo>, ParseError>)
        requires
            old(self).wf(),
        ensures
            moved(*old(self), *final(self)),
            (final(self).st(), rv(r)) == p_if(old(self).toks(), old(self).st()),
            r is Ok ==> old(self).st().pos < final(self).st().pos,
        decreases old(self).toks().len() - old(self).st().pos, 18int,
    {
        match self.consume(TokenKind::LeftParen, "Expected '(' after if keyword") {
            Ok(_) => {},
            Err(e) => {
                return Err(e);
            },
        }
        let check_expr = match self.expression() {
            Ok(x) => x,
            Err(e) => {
                return Err(e);
            },
        };
        match self.consume(TokenKind::RightParen, "Expected ')' after if keyword") {
            Ok(_) => {},
            Err(e) => {
                return Err(e);
            },
        }
        let body_expr = match self.expression() {
            Ok(x) => x,
            Err(e) => {
                return Err(e);
            },
        };
        let else_clause = if self.check(&TokenKind::Else) {
            self.advance();
            match self.expression() {
                Ok(x) => Some(Box::new(x)),
                Err(e) => {
                    return Err(e);
                },
            }
        } else {
            None
        };
        Ok(
            Expression::If {
                check_expression: Box::new(check_expr),
                body: Box::new(body_expr),
                else_body: else_clause,
                information: self.info(),
            },
        )
    }

    /// A while expression, after `while`.
    fn while_expression(&mut self) -> (r: Result<Expression<ParseInfo>, ParseError>)
        requires
            old(self).wf(),
        ensures
            moved(*old(self), *final(self)),
            (final(self).st(), rv(r)) == p_while(old(self).toks(), old(self).st()),
            r is Ok ==> old(self).st().pos < final(self).st().pos,
        decreases old(self).toks().len() - old(self).st().pos, 18int,
    {
        let predicate = if self.check(&TokenKind::LeftParen) {
            self.advance();
            let predicate_expression = match self.expression() {
                Ok(x) => x,
                Err(e) => {
                    return Err(e);
                },
            };
            match self.consume(TokenKind::RightParen, "Expected ')' after while keyword with predicate") {
                Ok(_) => {},
                Err(e) => {
                    return Err(e);
                },
            }
            Some(Box::new(predicate_expression))
        } else {
            None
        };
        let body_expr = match self.expression() {
            Ok(x) => x,
            Err(e) => {
                return Err(e);
            },
        };
        Ok(Expression::LoopExpression { predicate, body: Box::new(body_expr), information: self.info() })
    }

    /// An assignment to a name, or an equality.
    fn assignment(&mut self) -> (r: Result<Expression<ParseInfo>, ParseError>)
        requires
            old(self).wf(),
        ensures
            moved(*old(self), *final(self)),
            (final(self).st(), rv(r)) == p_assignment(old(self).toks(), old(self).st()),
            r is Ok ==> old(self).st().pos < final(self).st().pos,
        decreases old(self).toks().len() - old(self).st().pos, 16int,
    {
        let lhs = match self.equality() {
            Ok(x) => x,
            Err(e) => {
                return Err(e);
            },
        };
        if self.check(&TokenKind::Equal) {
            let eq = match self.advance() {
                Some(t) => t,
                None => {
                    return Err(ParseError::from_other("Unexpected EOS"));
                },
            };
            let rhs = match self.assignment() {
                Ok(x) => x,
                Err(e) => {
                    return Err(e);
                },
            };
            match lhs {
                Expression::Literal { literal, .. } => match literal.1 {
                    TokenKind::Identifier(s) => Ok(
                        Expression::Assignment {
                            name: Symbol::from_string(s),
                            value: Box::new(rhs),
                            information: self.info(),
                        },
                    ),
                    _ => Err(ParseError::from_token(eq, "Invalid assignment target")),
                },
                _ => Err(ParseError::from_token(eq, "Invalid assignment target")),
            }
        } else {
            Ok(lhs)
        }
    }

    /// An equality chain.
    fn equality(&mut self) -> (r: Result<Expression<ParseInfo>, ParseError>)
        requires
            old(self).wf(),
        ensures
            moved(*old(self), *final(self)),
            (final(self).st(), rv(r)) == p_equality(old(self).toks(), old(self).st()),
            r is Ok ==> old(self).st().pos < final(self).st().pos,
        decreases old(self).toks().len() - old(self).st().pos, 15int,
    {
        self.binary(3)
    }

    /// Whether the next token, before the end, is an operator at `level`.
    fn at_level(&self, level: u8) -> (r: bool)
        requires
            level <= 3,
        ensures
            r == (!at_end(self.toks(), self.st()) && binary_level(
                level as int,
                self.toks()[self.st().pos as int].1@,
            )),
    {
        if self.is_at_end() {
            return false;
        }
        match &self.tokens[self.pos].1 {
            TokenKind::BangEqual | TokenKind::EqualEqual => level == 3,
            TokenKind::Greater | TokenKind::GreaterEqual | TokenKind::Less | TokenKind::LessEqual => level == 2,
            TokenKind::Minus | TokenKind::Plus => level == 1,
            TokenKind::Star | TokenKind::Slash => level == 0,
            _ => false,
        }
    }

    /// A left-associated chain of binary operations at `level`.
    fn binary(&mut self, level: u8) -> (r: Result<Expression<ParseInfo>, ParseError>)
        requires
            old(self).wf(),
            level <= 3,
        ensures
            moved(*old(self), *final(self)),
            (final(self).st(), rv(r)) == p_binary(old(self).toks(), old(self).st(), level as int),
            r is Ok ==> old(self).st().pos < final(self).st().pos,
        decreases old(self).toks().len() - old(self).st().pos, 3 * level + 5,
    {
        let ghost t = self.toks();
        let ghost s0 = self.st();
        let mut lhs = match self.operand(level) {
            Ok(x) => x,
            Err(e) => {
                return Err(e);
            },
        };
        while self.at_level(level)
            invariant
                self.wf(),
                self.toks() == t,
                t == old(self).toks(),
                s0 == old(self).st(),
                s0.pos < self.st().pos,
                level <= 3,
                p_binary(t, s0, level as int) == p_binary_loop(t, self.st(), level as int, ev(lhs)),
            decreases t.len() - self.st().pos,
        {
            let oper = match self.advance() {
                Some(tk) => tk,
                None => {
                    return Err(ParseError::from_other("Unexpected EOS"));
                },
            };
            let rhs = match self.operand(level) {
                Ok(x) => x,
                Err(e) => {
                    return Err(e);
                },
            };
            lhs = Expression::Binary { left: Box::new(lhs), operator: oper, right: Box::new(rhs), information: self.info() };
        }
        Ok(lhs)
    }

    /// An operand at `level`: a chain at the level below, or a unary expression.
    fn operand(&mut self, level: u8) -> (r: Result<Expression<ParseInfo>, ParseError>)
        requires
            old(self).wf(),
            level <= 3,
        ensures
            moved(*old(self), *final(self)),
            (final(self).st(), rv(r)) == p_operand(old(self).toks(), old(self).st(), level as int),
            r is Ok ==> old(self).st().pos < final(self).st().pos,
        decreases old(self).toks().len() - old(self).st().pos, 3 * level + 3,
    {
        if level == 0 {
            self.unary()
        } else {
            self.binary(level - 1)
        }
    }

    /// A unary operation or a primary expression.
    fn unary(&mut self) -> (r: Result<Expression<ParseInfo>, ParseError>)
        requires
            old(self).wf(),
        ensures
            moved(*old(self), *final(self)),
            (final(self).st(), rv(r)) == p_unary(old(self).toks(), old(self).st()),
            r is Ok ==> old(self).st().pos < final(self).st().pos,
        decreases old(self).toks().len() - old(self).st().pos, 1int,
    {
        if self.check(&TokenKind::Bang) || self.check(&TokenKind::Minus) {
            let oper = match self.advance() {
                Some(tk) => tk,
                None => {
                    return Err(ParseError::from_other("Unexpected EOS"));
                },
            };
            match self.unary() {
                Ok(rhs) => Ok(Expression::Unary { operator: oper, right: Box::new(rhs), information: self.info() }),
                Err(e) => Err(e),
            }
        } else {
            self.primary()
        }
    }

    /// A parenthesised sequence of expressions, or a literal.
    fn primary(&mut self) -> (r: Result<Expression<ParseInfo>, ParseError>)
        requires
            old(self).wf(),
        ensures
            moved(*old(self), *final(self)),
            (final(self).st(), rv(r)) == p_primary(old(self).toks(), old(self).st()),
            r is Ok ==> old(self).st().pos < final(self).st().pos,
        decreases old(self).toks().len() - old(self).st().pos, 0int,
    {
        let ghost t = self.toks();
        if self.check(&TokenKind::LeftParen) {
            self.advance();
            let ghost s1 = self.st();
            let mut seq_expressions: Vec<Expression<ParseInfo>> = Vec::new();
            let inner = match self.expression() {
                Ok(x) => x,
                Err(e) => {
                    return Err(e);
                },
            };
            seq_expressions.push(inner);
            assert(crate::ast::tree::evs(seq_expressions@) =~= seq![ev(inner)]);
            while self.check(&TokenKind::Semicolon)
                invariant
                    self.wf(),
                    self.toks() == t,
                    t == old(self).toks(),
                    old(self).st().pos < self.st().pos,
                    p_primary(t, old(self).st()) == p_seq_loop(t, self.st(), crate::ast::tree::evs(seq_expressions@)),
                decreases t.len() - self.st().pos,
            {
                let ghost acc = crate::ast::tree::evs(seq_expressions@);
                self.advance();
                let inner = match self.expression() {
                    Ok(x) => x,
                    Err(e) => {
                        return Err(e);
                    },
                };
                seq_expressions.push(inner);
                assert(crate::ast::tree::evs(seq_expressions@) =~= acc.push(ev(inner)));
            }
            match self.consume(TokenKind::RightParen, "Expected ')' after expression.") {
                Ok(_) => {},
                Err(e) => {
                    return Err(e);
                },
            }
            let information = self.info();
            proof {
                crate::ast::tree::lemma_ev_seq(seq_expressions, information);
            }
            Ok(Expression::Sequence { seq: seq_expressions, information })
        } else {
            match self.advance() {
                Some(tk) => {
                    if tk.1.is_literal() {
                        Ok(Expression::Literal { literal: tk, information: self.info() })
                    } else {
                        Err(ParseError::from_other("Unexpected EOS"))
                    }
                },
                None => Err(ParseError::from_other("Unexpected EOS")),
            }
        }
    }
}


/// An item seen mathematically.
pub open spec fn itv(i: Item<ParseInfo>) -> FunctionV<ParseInfo> {
    match i {
        Item::Function(f) => fv(f),
    }
}

/// The parser's result for an item, seen mathematically.
pub open spec fn riv(r: Result<Item<ParseInfo>, ParseError>) -> Result<FunctionV<ParseInfo>, ParseError> {
    match r {
        Ok(i) => Ok(itv(i)),
        Err(x) => Err(x),
    }
}

/// The parser's result for a list of items, seen mathematically.
pub open spec fn rivs(r: Result<Vec<Item<ParseInfo>>, ParseError>) -> Result<Seq<FunctionV<ParseInfo>>, ParseError> {
    match r {
        Ok(v) => Ok(Seq::new(v@.len(), |i: int| itv(v@[i]))),
        Err(x) => Err(x),
    }
}

impl BasicParser {
    /// The arguments of a function, after its opening parenthesis.
    fn function_args(&mut self) -> (r: Result<Vec<FunctionArg>, ParseError>)
        requires
            old(self).wf(),
        ensures
            moved(*old(self), *final(self)),
            (final(self).st(), match r {
                Ok(v) => Ok(v@),
                Err(e) => Err(e),
            }) == p_args(old(self).toks(), old(self).st(), seq![]),
            r is Ok ==> old(self).st().pos < final(self).st().pos,
    {
        let ghost t = self.toks();
        let mut func_args: Vec<FunctionArg> = Vec::new();
        while !self.check(&TokenKind::RightParen)
            invariant
                self.wf(),
                self.toks() == t,
                t == old(self).toks(),
                old(self).st().pos <= self.st().pos,
                p_args(t, old(self).st(), seq![]) == p_args(t, self.st(), func_args@),
            decreases t.len() - self.st().pos,
        {
            let func_arg_name = match self.consume_ident("could not find function argument name") {
                Ok(tk) => tk,
                Err(e) => {
                    return Err(e);
                },
            };
            let func_arg_name = match Symbol::new(func_arg_name) {
                Ok(s) => s,
                Err(e) => {
                    return Err(e);
                },
            };
            match self.consume(TokenKind::Colon, "no colon after arg name") {
                Ok(_) => {},
                Err(e) => {
                    return Err(e);
                },
            }
            let func_arg_ty = match self.consume_ident("could not find function argument type") {
                Ok(tk) => tk,
                Err(e) => {
                    return Err(e);
                },
            };
            let ty_ident = match Symbol::new(func_arg_ty) {
                Ok(s) => s,
                Err(e) => {
                    return Err(e);
                },
            };
            let ty_info = match self.type_info(&ty_ident) {
                Ok(t) => t,
                Err(e) => {
                    return Err(e);
                },
            };
            func_args.push(FunctionArg { name: func_arg_name, ty: ty_info });
        }
        self.advance();
        Ok(func_args)
    }

    /// The return type of a function: the type named after an arrow, or the unit type.
    fn return_type(&mut self) -> (r: Result<TypeInformation, ParseError>)
        requires
            old(self).wf(),
        ensures
            moved(*old(self), *final(self)),
            (final(self).st(), r) == p_ret(old(self).toks(), old(self).st()),
    {
        if self.check(&TokenKind::Arrow) {
            self.advance();
            let func_arg_ty = match self.consume_ident("could not find function argument type") {
                Ok(tk) => tk,
                Err(e) => {
                    return Err(e);
                },
            };
            let ty_ident = match Symbol::new(func_arg_ty) {
                Ok(s) => s,
                Err(e) => {
                    return Err(e);
                },
            };
            self.type_info(&ty_ident)
        } else {
            Ok(TypeInformation::Unit)
        }
    }

    /// A top-level item: a function.
    fn item(&mut self) -> (r: Result<Item<ParseInfo>, ParseError>)
        requires
            old(self).wf(),
        ensures
            moved(*old(self), *final(self)),
            (final(self).st(), riv(r)) == p_item(old(self).toks(), old(self).st()),
            r is Ok ==> old(self).st().pos < final(self).st().pos,
    {
        if self.check(&TokenKind::Fun) {
            self.advance();
            let func_name = match self.consume_ident("Expected function name") {
                Ok(tk) => tk,
                Err(e) => {
                    return Err(e);
                },
            };
            let func_name = match Symbol::new(func_name) {
                Ok(s) => s,
                Err(e) => {
                    return Err(e);
                },
            };
            match self.consume(TokenKind::LeftParen, "Expected '(' after function name") {
                Ok(_) => {},
                Err(e) => {
                    return Err(e);
                },
            }
            let func_args = match self.function_args() {
                Ok(a) => a,
                Err(e) => {
                    return Err(e);
                },
            };
            let ret_ty = match self.return_type() {
                Ok(t) => t,
                Err(e) => {
                    return Err(e);
                },
            };
            match self.consume(TokenKind::LeftBrace, "no block before function") {
                Ok(_) => {},
                Err(e) => {
                    return Err(e);
                },
            }
            let block = match self.block_expression() {
                Ok(b) => b,
                Err(e) => {
                    return Err(e);
                },
            };
            let block_info = *block.information();
            let func = Function {
                args: func_args,
                chunk: AbstractTree::expression(block, block_info),
                name: func_name,
                return_ty: ret_ty,
                information: ParseInfo { scope_depth: 0, current_symbol_table: self.symbol_tbl, frame_data: self.frame_data },
            };
            Ok(Item::Function(func))
        } else {
            Err(ParseError::Other { msg: "failed to find top level item" })
        }
    }

    /// The next item, with fresh frame data and a fresh table of the built-in types.
    pub fn next(&mut self) -> (r: Result<Item<ParseInfo>, ParseError>)
        requires
            old(self).wf(),
        ensures
            moved(*old(self), *final(self)),
            (final(self).st(), riv(r)) == p_next(old(self).toks(), old(self).st()),
            r is Ok ==> old(self).st().pos < final(self).st().pos,
    {
        self.frame_data = self.scopes.push_frame(FrameData::new());
        self.root_symbol_tbl = self.scopes.push_table(SymbolTable::default());
        self.symbol_tbl = self.root_symbol_tbl;
        self.item()
    }

    /// All the items, up to the end of the tokens.
    pub fn parse(&mut self) -> (r: Result<Vec<Item<ParseInfo>>, ParseError>)
        requires
            old(self).wf(),
        ensures
            moved(*old(self), *final(self)),
            (final(self).st(), rivs(r)) == p_parse(old(self).toks(), old(self).st(), seq![]),
    {
        let ghost t = self.toks();
        let mut trees: Vec<Item<ParseInfo>> = Vec::new();
        assert(Seq::new(trees@.len(), |i: int| itv(trees@[i])) =~= Seq::<FunctionV<ParseInfo>>::empty());
        while !self.is_at_end()
            invariant
                self.wf(),
                self.toks() == t,
                t == old(self).toks(),
                old(self).st().pos <= self.st().pos,
                p_parse(t, old(self).st(), seq![]) == p_parse(
                    t,
                    self.st(),
                    Seq::new(trees@.len(), |i: int| itv(trees@[i])),
                ),
            decreases t.len() - self.st().pos,
        {
            let ghost acc = Seq::new(trees@.len(), |i: int| itv(trees@[i]));
            match self.next() {
                Ok(item) => {
                    trees.push(item);
                    assert(Seq::new(trees@.len(), |i: int| itv(trees@[i])) =~= acc.push(itv(item)));
                },
                Err(e) => {
                    return Err(e);
                },
            }
        }
        Ok(trees)
    }
}


/// A parser: something that reads items of type `Out` from its tokens.
pub trait Parser {
    type Out;

    /// All the items, up to the end of the tokens.
    fn parse_all(&mut self) -> Result<Vec<Self::Out>, ParseError>;
}

impl Parser for BasicParser {
    type Out = Item<ParseInfo>;

    fn parse_all(&mut self) -> (r: Result<Vec<Item<ParseInfo>>, ParseError>)
        ensures
            old(self).wf() ==> (final(self).st(), rivs(r)) == p_parse(old(self).toks(), old(self).st(), seq![]),
    {
        if self.ready() {
            self.parse()
        } else {
            Err(ParseError::from_other("parser state is inconsistent"))
        }
    }
}

} // verus!
