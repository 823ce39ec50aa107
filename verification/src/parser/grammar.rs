//! What the parser does, stated over its state: the position in the tokens,
//! the symbol tables and frame data made so far, and the current table and
//! frame.

use vstd::prelude::*;
use crate::ast::symbol::{
    TableView, FrameView, SymbolData, resolve_at, nesting, empty_table, default_table, inserted, fresh_frame,
};
use crate::ast::transformers::typeck::TypeInformation;
use crate::ast::tree::{ExprV, StmtV, TreeV, FunctionV, FunctionArg};
use crate::bytecode::{Symbol, symbol_from};
use crate::lexer::token::{Token, TokenKind, TokenTypeView};
use super::{ParseInfo, ParseError};

verus! {

/// The state of the parser, seen mathematically.
pub struct PState {
    pub pos: nat,
    pub tables: Seq<TableView>,
    pub frames: Seq<FrameView>,
    pub cur: nat,
    pub root: nat,
    pub frame: nat,
}

/// Whether the tokens are used up at `s`: none is left, or the next is the end of file.
pub open spec fn at_end(t: Seq<Token>, s: PState) -> bool {
    s.pos >= t.len() || t[s.pos as int].1 is Eof
}

/// Whether the next token, before the end, is of kind `k`.
pub open spec fn check(t: Seq<Token>, s: PState, k: TokenTypeView) -> bool {
    !at_end(t, s) && t[s.pos as int].1@ == k
}

/// The state after one token.
pub open spec fn adv(s: PState) -> PState {
    PState { pos: s.pos + 1, ..s }
}

/// Whether the parser has moved from `a` to `b` without going back or past the end.
pub open spec fn prog(t: Seq<Token>, a: PState, b: PState) -> bool {
    a.pos <= b.pos && b.pos <= t.len()
}

/// What the parser records at a node made in state `s`.
pub open spec fn info(s: PState) -> ParseInfo {
    ParseInfo {
        scope_depth: nesting(s.tables, s.cur) as usize,
        current_symbol_table: s.cur as usize,
        frame_data: s.frame as usize,
    }
}

/// The error for a token stream that ends too soon.
pub open spec fn eos() -> ParseError {
    ParseError::Other { msg: "Unexpected EOS" }
}

/// Takes the next token if it is of kind `k`; else reports it with `msg`.
pub open spec fn p_consume(t: Seq<Token>, s: PState, k: TokenTypeView, msg: &'static str) -> (PState, Result<Token, ParseError>) {
    if check(t, s, k) {
        (adv(s), Ok(t[s.pos as int]))
    } else if s.pos < t.len() {
        (s, Err(ParseError::TokenError { token: t[s.pos as int], msg }))
    } else {
        (s, Err(eos()))
    }
}

/// Takes the next token if it is an identifier; else reports it with `msg`.
pub open spec fn p_consume_ident(t: Seq<Token>, s: PState, msg: &'static str) -> (PState, Result<Token, ParseError>) {
    if s.pos < t.len() {
        if t[s.pos as int].1 is Identifier {
            (adv(s), Ok(t[s.pos as int]))
        } else {
            (s, Err(ParseError::TokenError { token: t[s.pos as int], msg }))
        }
    } else {
        (s, Err(eos()))
    }
}

/// The symbol an identifier token names.
pub open spec fn p_symbol(tk: Token) -> Result<Symbol, ParseError> {
    match tk.1 {
        TokenKind::Identifier(s) => Ok(symbol_from(s)),
        _ => Err(ParseError::Other { msg: "Failed to assemble ident from token" }),
    }
}

/// The type a type name stands for in state `s`: a known type, or a type
/// declared later by that name.
pub open spec fn p_type(s: PState, name: Symbol) -> Result<TypeInformation, ParseError> {
    match resolve_at(s.tables, s.cur, name@, nesting(s.tables, s.cur)) {
        Some(SymbolData::Type { ty }) => Ok(ty),
        Some(_) => Err(ParseError::Other { msg: "ident is being used by something else" }),
        None => Ok(TypeInformation::NonLiteral(name)),
    }
}

/// The state with a new scope, enclosed by the current one, made current.
pub open spec fn begin_scope(s: PState) -> PState {
    PState { tables: s.tables.push(empty_table(Some(s.cur as usize))), cur: s.tables.len(), ..s }
}

/// The state with the scope that encloses the current one made current.
pub open spec fn end_scope(s: PState) -> Result<PState, ParseError> {
    if s.cur < s.tables.len() {
        match s.tables[s.cur as int].enclosing {
            Some(j) => Ok(PState { cur: j as nat, ..s }),
            None => Err(ParseError::Other { msg: "failed to end scope" }),
        }
    } else {
        Err(ParseError::Other { msg: "failed to end scope" })
    }
}

/// Whether the token kind is a literal.
pub open spec fn literal_kind(k: TokenKind<String>) -> bool {
    k is Identifier || k is Str || k is Integer || k is Float || k is True || k is False
}

/// The kinds of token at which recovery after an error stops.
pub open spec fn sync_stop(k: TokenKind<String>) -> bool {
    k is Class || k is Fun || k is Let || k is For || k is If || k is While || k is Return
}

/// Recovery after an error: skips tokens up to the end of the statement or
/// to the start of the next one.
pub open spec fn sync_loop(t: Seq<Token>, s: PState, last: Option<Token>) -> PState
    decreases t.len() - s.pos,
{
    if at_end(t, s) {
        s
    } else {
        match last {
            None => s,
            Some(tk) => if tk.1 is Semicolon {
                s
            } else if sync_stop(t[s.pos as int].1) {
                s
            } else {
                sync_loop(t, adv(s), Some(t[s.pos as int]))
            },
        }
    }
}

/// Recovery after an error.
pub open spec fn p_sync(t: Seq<Token>, s: PState) -> PState {
    if s.pos < t.len() {
        sync_loop(t, adv(s), Some(t[s.pos as int]))
    } else {
        sync_loop(t, s, None)
    }
}

/// The type of an optional expression result, for the parser's states.
pub type PExpr = (PState, Result<ExprV<ParseInfo>, ParseError>);

/// The parser's result for a statement.
pub type PStmt = (PState, Result<StmtV<ParseInfo>, ParseError>);

/// An expression: an if, a while, a block, or an assignment.
pub open spec fn p_expression(t: Seq<Token>, s: PState) -> PExpr
    decreases t.len() - s.pos, 17int,
{
    if s.pos > t.len() {
        (s, Err(eos()))
    } else if check(t, s, TokenKind::If) {
        p_if(t, adv(s))
    } else if check(t, s, TokenKind::While) {
        p_while(t, adv(s))
    } else if check(t, s, TokenKind::LeftBrace) {
        let (s2, bs) = p_block(t, begin_scope(adv(s)));
        match end_scope(s2) {
            Err(e) => (s2, Err(e)),
            Ok(s3) => (s3, bs),
        }
    } else {
        p_assignment(t, s)
    }
}

/// A block: declarations up to the closing brace.
pub open spec fn p_block(t: Seq<Token>, s: PState) -> PExpr
    decreases t.len() - s.pos, 22int,
{
    if s.pos > t.len() {
        (s, Err(eos()))
    } else {
        let (s1, r) = p_block_loop(t, s, seq![]);
        match r {
            Err(e) => (s1, Err(e)),
            Ok(stmts) => (s1, Ok(ExprV::BlockExpression { statements: stmts, information: info(s1) })),
        }
    }
}

/// The declarations of a block after `acc`, up to the closing brace.
pub open spec fn p_block_loop(t: Seq<Token>, s: PState, acc: Seq<StmtV<ParseInfo>>) -> (PState, Result<
    Seq<StmtV<ParseInfo>>,
    ParseError,
>)
    decreases t.len() - s.pos, 21int,
{
    if s.pos > t.len() {
        (s, Err(eos()))
    } else if check(t, s, TokenKind::RightBrace) {
        (adv(s), Ok(acc))
    } else {
        let (s1, d) = p_declaration(t, s);
        match d {
            Err(e) => (s1, Err(e)),
            Ok(st) => if s.pos < s1.pos && s1.pos <= t.len() {
                p_block_loop(t, s1, acc.push(st))
            } else {
                (s1, Ok(acc.push(st)))
            },
        }
    }
}

/// A declaration: a variable declaration or a statement; after an error the
/// parser recovers and reports the error.
pub open spec fn p_declaration(t: Seq<Token>, s: PState) -> PStmt
    decreases t.len() - s.pos, 20int,
{
    if s.pos > t.len() {
        (s, Err(eos()))
    } else {
        let (s1, r) = if check(t, s, TokenKind::Let) {
            p_var(t, adv(s))
        } else {
            p_statement(t, s)
        };
        match r {
            Ok(x) => (s1, Ok(x)),
            Err(e) => (p_sync(t, s1), Err(e)),
        }
    }
}

/// A variable declaration, after `let`: a name, a type, an initializer and
/// a semicolon; the name is entered in the current table, as a global in the
/// outermost scope and as a local in a new slot of the frame otherwise.
pub open spec fn p_var(t: Seq<Token>, s: PState) -> PStmt
    decreases t.len() - s.pos, 19int,
{
    if s.pos > t.len() {
        (s, Err(eos()))
    } else {
        let (s1, rn) = p_consume_ident(t, s, "Expected variable name");
        match rn {
            Err(e) => (s1, Err(e)),
            Ok(name_tk) => {
                let (s2, rt) = if check(t, s1, TokenKind::Colon) {
                    let (s2, r) = p_consume_ident(t, adv(s1), "Expected variable type");
                    match r {
                        Err(e) => (s2, Err(e)),
                        Ok(tk) => (s2, Ok(Some(tk))),
                    }
                } else {
                    (s1, Ok(None))
                };
                match rt {
                    Err(e) => (s2, Err(e)),
                    Ok(ty_tok) => {
                        let (s3, ri) = if check(t, s2, TokenKind::Equal) {
                            let (s3, r) = p_expression(t, adv(s2));
                            match r {
                                Err(e) => (s3, Err(e)),
                                Ok(x) => (s3, Ok(Some(x))),
                            }
                        } else {
                            (s2, Ok(None))
                        };
                        match ri {
                            Err(e) => (s3, Err(e)),
                            Ok(init) => p_var_rest(t, s3, name_tk, ty_tok, init),
                        }
                    },
                }
            },
        }
    }
}

/// The end of a variable declaration, once its parts are read.
pub open spec fn p_var_rest(
    t: Seq<Token>,
    s3: PState,
    name_tk: Token,
    ty_tok: Option<Token>,
    init: Option<ExprV<ParseInfo>>,
) -> PStmt {
    if init is None || ty_tok is None {
        (s3, Err(ParseError::Other { msg: "Expected expression and variable type" }))
    } else {
        match (p_symbol(name_tk), p_symbol(ty_tok->0)) {
            (Err(e), _) => (s3, Err(e)),
            (Ok(_), Err(e)) => (s3, Err(e)),
            (Ok(ident), Ok(ty_ident)) => match p_type(s3, ty_ident) {
                Err(e) => (s3, Err(e)),
                Ok(ty_info) => {
                    let (s4, rc) = p_consume(t, s3, TokenKind::Semicolon, "Expected ';' after statement");
                    match rc {
                        Err(e) => (s4, Err(e)),
                        Ok(_) => {
                            let sd = nesting(s4.tables, s4.cur);
                            let s5 = if sd == 0 {
                                PState {
                                    tables: s4.tables.update(
                                        s4.cur as int,
                                        inserted(s4.tables[s4.cur as int], ident@, SymbolData::GlobalVariable { ty: ty_info }),
                                    ),
                                    ..s4
                                }
                            } else {
                                let f = s4.frames[s4.frame as int];
                                let li = f.params + f.locals;
                                PState {
                                    frames: s4.frames.update(s4.frame as int, FrameView { locals: f.locals + 1, ..f }),
                                    tables: s4.tables.update(
                                        s4.cur as int,
                                        inserted(
                                            s4.tables[s4.cur as int],
                                            ident@,
                                            SymbolData::LocalVariable { ty: ty_info, scope_level: sd as usize, slot: li as usize },
                                        ),
                                    ),
                                    ..s4
                                }
                            };
                            (
                                s5,
                                Ok(
                                    StmtV::VarStatement {
                                        ident,
                                        init: init->0,
                                        information: ParseInfo {
                                            scope_depth: sd as usize,
                                            current_symbol_table: s4.cur as usize,
                                            frame_data: s4.frame as usize,
                                        },
                                    },
                                ),
                            )
                        },
                    }
                },
            },
        }
    }
}

/// A statement: a print statement, or an expression statement.
pub open spec fn p_statement(t: Seq<Token>, s: PState) -> PStmt
    decreases t.len() - s.pos, 19int,
{
    if s.pos > t.len() {
        (s, Err(eos()))
    } else if check(t, s, TokenKind::Identifier("print"@)) {
        p_print(t, adv(s))
    } else {
        p_expr_stmt(t, s)
    }
}

/// A print statement, after `print`: an expression in parentheses and a semicolon.
pub open spec fn p_print(t: Seq<Token>, s: PState) -> PStmt
    decreases t.len() - s.pos, 18int,
{
    if s.pos > t.len() {
        (s, Err(eos()))
    } else {
        let (s1, r1) = p_consume(t, s, TokenKind::LeftParen, "Expected ( before print statement");
        match r1 {
            Err(e) => (s1, Err(e)),
            Ok(_) => {
                let (s2, r2) = p_expression(t, s1);
                match r2 {
                    Err(e) => (s2, Err(e)),
                    Ok(x) => {
                        let (s3, r3) = p_consume(t, s2, TokenKind::RightParen, "Expected ) after print statement");
                        match r3 {
                            Err(e) => (s3, Err(e)),
                            Ok(_) => {
                                let (s4, r4) = p_consume(t, s3, TokenKind::Semicolon, "Expected ';' after expression");
                                match r4 {
                                    Err(e) => (s4, Err(e)),
                                    Ok(_) => (s4, Ok(StmtV::PrintStatement { expression: x, information: info(s4) })),
                                }
                            },
                        }
                    },
                }
            },
        }
    }
}

/// An expression statement: an expression and a semicolon.
pub open spec fn p_expr_stmt(t: Seq<Token>, s: PState) -> PStmt
    decreases t.len() - s.pos, 18int,
{
    if s.pos > t.len() {
        (s, Err(eos()))
    } else {
        let (s1, r1) = p_expression(t, s);
        match r1 {
            Err(e) => (s1, Err(e)),
            Ok(x) => {
                let (s2, r2) = p_consume(t, s1, TokenKind::Semicolon, "Expected ';' after expression");
                match r2 {
                    Err(e) => (s2, Err(e)),
                    Ok(_) => (s2, Ok(StmtV::ExpressionStatement { expression: x, information: info(s2) })),
                }
            },
        }
    }
}

/// An if expression, after `if`: a check in parentheses, a body, and an
/// optional else branch.
pub open spec fn p_if(t: Seq<Token>, s: PState) -> PExpr
    decreases t.len() - s.pos, 18int,
{
    if s.pos > t.len() {
        (s, Err(eos()))
    } else {
        let (s1, r1) = p_consume(t, s, TokenKind::LeftParen, "Expected '(' after if keyword");
        match r1 {
            Err(e) => (s1, Err(e)),
            Ok(_) => {
                let (s2, r2) = p_expression(t, s1);
                match r2 {
                    Err(e) => (s2, Err(e)),
                    Ok(c) => {
                        let (s3, r3) = p_consume(t, s2, TokenKind::RightParen, "Expected ')' after if keyword");
                        match r3 {
                            Err(e) => (s3, Err(e)),
                            Ok(_) => if prog(t, s1, s2) {
                                let (s4, r4) = p_expression(t, s3);
                                match r4 {
                                    Err(e) => (s4, Err(e)),
                                    Ok(b) => if check(t, s4, TokenKind::Else) && prog(t, s3, s4) {
                                        let (s5, r5) = p_expression(t, adv(s4));
                                        match r5 {
                                            Err(e) => (s5, Err(e)),
                                            Ok(el) => (
                                                s5,
                                                Ok(
                                                    ExprV::If {
                                                        check_expression: Box::new(c),
                                                        body: Box::new(b),
                                                        else_body: Some(Box::new(el)),
                                                        information: info(s5),
                                                    },
                                                ),
                                            ),
                                        }
                                    } else {
                                        (
                                            s4,
                                            Ok(
                                                ExprV::If {
                                                    check_expression: Box::new(c),
                                                    body: Box::new(b),
                                                    else_body: None,
                                                    information: info(s4),
                                                },
                                            ),
                                        )
                                    },
                                }
                            } else {
                                (s3, Err(eos()))
                            },
                        }
                    },
                }
            },
        }
    }
}

/// A while expression, after `while`: an optional predicate in parentheses, and a body.
pub open spec fn p_while(t: Seq<Token>, s: PState) -> PExpr
    decreases t.len() - s.pos, 18int,
{
    if s.pos > t.len() {
        (s, Err(eos()))
    } else if check(t, s, TokenKind::LeftParen) {
        let (s2, r2) = p_expression(t, adv(s));
        match r2 {
            Err(e) => (s2, Err(e)),
            Ok(p) => {
                let (s3, r3) = p_consume(
                    t,
                    s2,
                    TokenKind::RightParen,
                    "Expected ')' after while keyword with predicate",
                );
                match r3 {
                    Err(e) => (s3, Err(e)),
                    Ok(_) => if prog(t, adv(s), s2) {
                        let (s4, r4) = p_expression(t, s3);
                        match r4 {
                            Err(e) => (s4, Err(e)),
                            Ok(b) => (
                                s4,
                                Ok(
                                    ExprV::LoopExpression {
                                        predicate: Some(Box::new(p)),
                                        body: Box::new(b),
                                        information: info(s4),
                                    },
                                ),
                            ),
                        }
                    } else {
                        (s3, Err(eos()))
                    },
                }
            },
        }
    } else {
        let (s4, r4) = p_expression(t, s);
        match r4 {
            Err(e) => (s4, Err(e)),
            Ok(b) => (
                s4,
                Ok(ExprV::LoopExpression { predicate: None, body: Box::new(b), information: info(s4) }),
            ),
        }
    }
}

/// An assignment to a name, or an equality.
pub open spec fn p_assignment(t: Seq<Token>, s: PState) -> PExpr
    decreases t.len() - s.pos, 16int,
{
    if s.pos > t.len() {
        (s, Err(eos()))
    } else {
        let (s1, r1) = p_equality(t, s);
        match r1 {
            Err(e) => (s1, Err(e)),
            Ok(lhs) => if check(t, s1, TokenKind::Equal) && prog(t, s, s1) {
                let eq = t[s1.pos as int];
                let (s2, r2) = p_assignment(t, adv(s1));
                match r2 {
                    Err(e) => (s2, Err(e)),
                    Ok(rhs) => match lhs {
                        ExprV::Literal { literal, .. } => match literal.1 {
                            TokenKind::Identifier(name) => (
                                s2,
                                Ok(
                                    ExprV::Assignment {
                                        name: symbol_from(name),
                                        value: Box::new(rhs),
                                        information: info(s2),
                                    },
                                ),
                            ),
                            _ => (s2, Err(ParseError::TokenError { token: eq, msg: "Invalid assignment target" })),
                        },
                        _ => (s2, Err(ParseError::TokenError { token: eq, msg: "Invalid assignment target" })),
                    },
                }
            } else {
                (s1, Ok(lhs))
            },
        }
    }
}

/// The kinds of the operators at each level of binary precedence.
pub open spec fn binary_level(level: int, k: TokenTypeView) -> bool {
    if level == 3 {
        k is BangEqual || k is EqualEqual
    } else if level == 2 {
        k is Greater || k is GreaterEqual || k is Less || k is LessEqual
    } else if level == 1 {
        k is Minus || k is Plus
    } else {
        k is Star || k is Slash
    }
}

/// A left-associated chain of binary operations at `level` (3: equality,
/// 2: comparison, 1: term, 0: factor).
pub open spec fn p_binary(t: Seq<Token>, s: PState, level: int) -> PExpr
    decreases t.len() - s.pos, 3 * level + 5,
{
    if s.pos > t.len() || level < 0 || level > 3 {
        (s, Err(eos()))
    } else {
        let (s1, r1) = p_operand(t, s, level);
        match r1 {
            Err(e) => (s1, Err(e)),
            Ok(lhs) => if prog(t, s, s1) {
                p_binary_loop(t, s1, level, lhs)
            } else {
                (s1, Err(eos()))
            },
        }
    }
}

/// An operand at `level`: a chain at the level below, or a unary expression.
pub open spec fn p_operand(t: Seq<Token>, s: PState, level: int) -> PExpr
    decreases t.len() - s.pos, 3 * level + 3,
{
    if s.pos > t.len() || level < 0 || level > 3 {
        (s, Err(eos()))
    } else if level == 0 {
        p_unary(t, s)
    } else {
        p_binary(t, s, level - 1)
    }
}

/// The rest of a chain at `level` after its left part `lhs`.
pub open spec fn p_binary_loop(t: Seq<Token>, s: PState, level: int, lhs: ExprV<ParseInfo>) -> PExpr
    decreases t.len() - s.pos, 3 * level + 4,
{
    if s.pos > t.len() || level < 0 || level > 3 {
        (s, Err(eos()))
    } else if !at_end(t, s) && binary_level(level, t[s.pos as int].1@) {
        let op = t[s.pos as int];
        let (s2, r2) = p_operand(t, adv(s), level);
        match r2 {
            Err(e) => (s2, Err(e)),
            Ok(rhs) => if prog(t, adv(s), s2) {
                p_binary_loop(
                    t,
                    s2,
                    level,
                    ExprV::Binary { left: Box::new(lhs), operator: op, right: Box::new(rhs), information: info(s2) },
                )
            } else {
                (s2, Err(eos()))
            },
        }
    } else {
        (s, Ok(lhs))
    }
}

/// An equality chain.
pub open spec fn p_equality(t: Seq<Token>, s: PState) -> PExpr
    decreases t.len() - s.pos, 15int,
{
    p_binary(t, s, 3)
}

/// A unary operation or a primary expression.
pub open spec fn p_unary(t: Seq<Token>, s: PState) -> PExpr
    decreases t.len() - s.pos, 1int,
{
    if s.pos > t.len() {
        (s, Err(eos()))
    } else if check(t, s, TokenKind::Bang) || check(t, s, TokenKind::Minus) {
        let op = t[s.pos as int];
        let (s2, r2) = p_unary(t, adv(s));
        match r2 {
            Err(e) => (s2, Err(e)),
            Ok(rhs) => (s2, Ok(ExprV::Unary { operator: op, right: Box::new(rhs), information: info(s2) })),
        }
    } else {
        p_primary(t, s)
    }
}

/// A parenthesised sequence of expressions, or a literal.
pub open spec fn p_primary(t: Seq<Token>, s: PState) -> PExpr
    decreases t.len() - s.pos, 0int,
{
    if s.pos > t.len() {
        (s, Err(eos()))
    } else if check(t, s, TokenKind::LeftParen) {
        let (s2, r2) = p_expression(t, adv(s));
        match r2 {
            Err(e) => (s2, Err(e)),
            Ok(first) => if prog(t, adv(s), s2) {
                p_seq_loop(t, s2, seq![first])
            } else {
                (s2, Err(eos()))
            },
        }
    } else if s.pos < t.len() {
        if literal_kind(t[s.pos as int].1) {
            (adv(s), Ok(ExprV::Literal { literal: t[s.pos as int], information: info(adv(s)) }))
        } else {
            (adv(s), Err(eos()))
        }
    } else {
        (s, Err(eos()))
    }
}

/// The rest of a parenthesised sequence after `acc`: more expressions after
/// semicolons, and the closing parenthesis.
pub open spec fn p_seq_loop(t: Seq<Token>, s: PState, acc: Seq<ExprV<ParseInfo>>) -> PExpr
    decreases t.len() - s.pos, 0int,
{
    if s.pos > t.len() {
        (s, Err(eos()))
    } else if check(t, s, TokenKind::Semicolon) {
        let (s2, r2) = p_expression(t, adv(s));
        match r2 {
            Err(e) => (s2, Err(e)),
            Ok(x) => if prog(t, adv(s), s2) {
                p_seq_loop(t, s2, acc.push(x))
            } else {
                (s2, Err(eos()))
            },
        }
    } else {
        let (s3, r3) = p_consume(t, s, TokenKind::RightParen, "Expected ')' after expression.");
        match r3 {
            Err(e) => (s3, Err(e)),
            Ok(_) => (s3, Ok(ExprV::Sequence { seq: acc, information: info(s3) })),
        }
    }
}


/// The arguments of a function after `acc`, up to the closing parenthesis:
/// each a name, a colon and a type name.
pub open spec fn p_args(t: Seq<Token>, s: PState, acc: Seq<FunctionArg>) -> (PState, Result<Seq<FunctionArg>, ParseError>)
    decreases t.len() - s.pos,
{
    if s.pos > t.len() {
        (s, Err(eos()))
    } else if check(t, s, TokenKind::RightParen) {
        (adv(s), Ok(acc))
    } else {
        let (s1, r1) = p_consume_ident(t, s, "could not find function argument name");
        match r1 {
            Err(e) => (s1, Err(e)),
            Ok(n_tk) => match p_symbol(n_tk) {
                Err(e) => (s1, Err(e)),
                Ok(name) => {
                    let (s2, r2) = p_consume(t, s1, TokenKind::Colon, "no colon after arg name");
                    match r2 {
                        Err(e) => (s2, Err(e)),
                        Ok(_) => {
                            let (s3, r3) = p_consume_ident(t, s2, "could not find function argument type");
                            match r3 {
                                Err(e) => (s3, Err(e)),
                                Ok(ty_tk) => match p_symbol(ty_tk) {
                                    Err(e) => (s3, Err(e)),
                                    Ok(ty_ident) => match p_type(s3, ty_ident) {
                                        Err(e) => (s3, Err(e)),
                                        Ok(ty) => p_args(t, s3, acc.push(FunctionArg { name, ty })),
                                    },
                                },
                            }
                        },
                    }
                },
            },
        }
    }
}

/// The return type of a function: the type named after an arrow, or the unit type.
pub open spec fn p_ret(t: Seq<Token>, s: PState) -> (PState, Result<TypeInformation, ParseError>) {
    if check(t, s, TokenKind::Arrow) {
        let (s4, r4) = p_consume_ident(t, adv(s), "could not find function argument type");
        match r4 {
            Err(e) => (s4, Err(e)),
            Ok(tk) => match p_symbol(tk) {
                Err(e) => (s4, Err(e)),
                Ok(ty_ident) => match p_type(s4, ty_ident) {
                    Err(e) => (s4, Err(e)),
                    Ok(ty) => (s4, Ok(ty)),
                },
            },
        }
    } else {
        (s, Ok(TypeInformation::Unit))
    }
}

/// A top-level item: a function with its name, arguments, return type and body.
pub open spec fn p_item(t: Seq<Token>, s: PState) -> (PState, Result<FunctionV<ParseInfo>, ParseError>) {
    if check(t, s, TokenKind::Fun) {
        let (s1, r1) = p_consume_ident(t, adv(s), "Expected function name");
        match r1 {
            Err(e) => (s1, Err(e)),
            Ok(n_tk) => match p_symbol(n_tk) {
                Err(e) => (s1, Err(e)),
                Ok(name) => {
                    let (s2, r2) = p_consume(t, s1, TokenKind::LeftParen, "Expected '(' after function name");
                    match r2 {
                        Err(e) => (s2, Err(e)),
                        Ok(_) => {
                            let (s3, r3) = p_args(t, s2, seq![]);
                            match r3 {
                                Err(e) => (s3, Err(e)),
                                Ok(args) => {
                                    let (s4, r4) = p_ret(t, s3);
                                    match r4 {
                                        Err(e) => (s4, Err(e)),
                                        Ok(ret) => {
                                            let (s5, r5) = p_consume(t, s4, TokenKind::LeftBrace, "no block before function");
                                            match r5 {
                                                Err(e) => (s5, Err(e)),
                                                Ok(_) => {
                                                    let (s6, r6) = p_block(t, s5);
                                                    match r6 {
                                                        Err(e) => (s6, Err(e)),
                                                        Ok(block) => (
                                                            s6,
                                                            Ok(
                                                                FunctionV {
                                                                    args,
                                                                    chunk: TreeV::Expression(block, info(s6)),
                                                                    name,
                                                                    return_ty: ret,
                                                                    information: ParseInfo {
                                                                        scope_depth: 0,
                                                                        current_symbol_table: s6.cur as usize,
                                                                        frame_data: s6.frame as usize,
                                                                    },
                                                                },
                                                            ),
                                                        ),
                                                    }
                                                },
                                            }
                                        },
                                    }
                                },
                            }
                        },
                    }
                },
            },
        }
    } else {
        (s, Err(ParseError::Other { msg: "failed to find top level item" }))
    }
}

/// The state for a new item: fresh frame data, and a fresh table of the
/// built-in types as the root and current table.
pub open spec fn fresh_item(s: PState) -> PState {
    PState {
        frames: s.frames.push(fresh_frame()),
        frame: s.frames.len(),
        tables: s.tables.push(default_table()),
        root: s.tables.len(),
        cur: s.tables.len(),
        ..s
    }
}

/// The next item, with fresh frame data and tables.
pub open spec fn p_next(t: Seq<Token>, s: PState) -> (PState, Result<FunctionV<ParseInfo>, ParseError>) {
    p_item(t, fresh_item(s))
}

/// The items after `acc`, up to the end of the tokens.
pub open spec fn p_parse(t: Seq<Token>, s: PState, acc: Seq<FunctionV<ParseInfo>>) -> (PState, Result<
    Seq<FunctionV<ParseInfo>>,
    ParseError,
>)
    decreases t.len() - s.pos,
{
    if s.pos > t.len() {
        (s, Err(eos()))
    } else if at_end(t, s) {
        (s, Ok(acc))
    } else {
        let (s1, r) = p_next(t, s);
        match r {
            Err(e) => (s1, Err(e)),
            Ok(f) => if s.pos < s1.pos && s1.pos <= t.len() {
                p_parse(t, s1, acc.push(f))
            } else {
                (s1, Ok(acc.push(f)))
            },
        }
    }
}

/// The state `s` moved to position `q`.
pub open spec fn at_pos(s: PState, q: nat) -> PState {
    PState { pos: q, ..s }
}

/// Whether `e` is the literal `tk`.
pub open spec fn is_literal_of(e: ExprV<ParseInfo>, tk: Token) -> bool {
    e matches ExprV::Literal { literal, .. } && literal == tk
}

/// Whether `e` is a binary node with operator `op`.
pub open spec fn is_node(e: ExprV<ParseInfo>, op: Token) -> bool {
    e matches ExprV::Binary { operator, .. } && operator == op
}

/// A literal token at `q` is read as that literal by the unary level.
proof fn lemma_unary_literal(t: Seq<Token>, s: PState, q: nat)
    requires
        q < t.len(),
        literal_kind(t[q as int].1),
    ensures
        p_unary(t, at_pos(s, q)).0 == at_pos(s, q + 1),
        p_unary(t, at_pos(s, q)).1 == Ok::<ExprV<ParseInfo>, ParseError>(
            ExprV::Literal { literal: t[q as int], information: info(at_pos(s, q + 1)) },
        ),
{
    let sq = at_pos(s, q);
    assert(!check(t, sq, TokenKind::Bang));
    assert(!check(t, sq, TokenKind::Minus));
    assert(!check(t, sq, TokenKind::LeftParen));
    assert(adv(sq) == at_pos(s, q + 1));
    assert(p_primary(t, sq) == (adv(sq), Ok::<ExprV<ParseInfo>, ParseError>(
        ExprV::Literal { literal: t[q as int], information: info(adv(sq)) },
    )));
    assert(p_unary(t, sq) == p_primary(t, sq));
}

/// A literal at `q` followed by a token that is no operator of the factor level
/// is read as that literal by the factor level.
proof fn lemma_factor_literal(t: Seq<Token>, s: PState, q: nat)
    requires
        q + 1 < t.len(),
        literal_kind(t[q as int].1),
        !binary_level(0, t[q + 1int].1@),
    ensures
        p_binary(t, at_pos(s, q), 0).0 == at_pos(s, q + 1),
        is_literal_of(p_binary(t, at_pos(s, q), 0).1->Ok_0, t[q as int]),
        p_binary(t, at_pos(s, q), 0).1 is Ok,
{
    lemma_unary_literal(t, s, q);
    let sq = at_pos(s, q);
    assert(p_operand(t, sq, 0) == p_unary(t, sq));
    let lit = ExprV::Literal { literal: t[q as int], information: info(at_pos(s, q + 1)) };
    assert(p_binary_loop(t, at_pos(s, q + 1), 0, lit) == (at_pos(s, q + 1), Ok::<ExprV<ParseInfo>, ParseError>(lit)));
}

/// Two literals joined by a factor operator at `q + 1`, followed by a token that
/// is no factor operator, are read by the factor level as one binary node.
proof fn lemma_factor_pair(t: Seq<Token>, s: PState, q: nat)
    requires
        q + 3 < t.len(),
        literal_kind(t[q as int].1),
        binary_level(0, t[q + 1int].1@),
        literal_kind(t[q + 2int].1),
        !binary_level(0, t[q + 3int].1@),
    ensures
        p_binary(t, at_pos(s, q), 0).0 == at_pos(s, q + 3),
        p_binary(t, at_pos(s, q), 0).1 is Ok,
        ({
            let e = p_binary(t, at_pos(s, q), 0).1->Ok_0;
            &&& is_node(e, t[q + 1int])
            &&& is_literal_of(*e->Binary_left, t[q as int])
            &&& is_literal_of(*e->Binary_right, t[q + 2int])
        }),
{
    lemma_unary_literal(t, s, q);
    lemma_unary_literal(t, s, q + 2);
    let sq = at_pos(s, q);
    let a = ExprV::Literal { literal: t[q as int], information: info(at_pos(s, q + 1)) };
    let b = ExprV::Literal { literal: t[q + 2int], information: info(at_pos(s, q + 3)) };
    assert(p_operand(t, sq, 0) == p_unary(t, sq));
    assert(adv(at_pos(s, q + 1)) == at_pos(s, q + 2));
    assert(p_operand(t, at_pos(s, q + 2), 0) == p_unary(t, at_pos(s, q + 2)));
    let ab = ExprV::Binary { left: Box::new(a), operator: t[q + 1int], right: Box::new(b), information: info(at_pos(s, q + 3)) };
    assert(p_binary_loop(t, at_pos(s, q + 3), 0, ab) == (at_pos(s, q + 3), Ok::<ExprV<ParseInfo>, ParseError>(ab)));
    assert(p_binary_loop(t, at_pos(s, q + 1), 0, a) == p_binary_loop(t, at_pos(s, q + 3), 0, ab));
}

/// `*` and `/` bind tighter than `+` and `-`: in `a + b / c` (or with `-` for
/// `+` and `*` for `/`) the term level reads `b / c` as the right operand of
/// `+`, so `1 + 6 / 2` is `1 + (6 / 2)`; and `/` and `*` are never operators of
/// the term level.
pub proof fn lemma_factor_binds_tighter(t: Seq<Token>, s: PState, p: nat)
    requires
        p + 5 < t.len(),
        literal_kind(t[p as int].1),
        t[p + 1int].1 is Plus || t[p + 1int].1 is Minus,
        literal_kind(t[p + 2int].1),
        t[p + 3int].1 is Slash || t[p + 3int].1 is Star,
        literal_kind(t[p + 4int].1),
        t[p + 5int].1 is Semicolon,
    ensures
        p_binary(t, at_pos(s, p), 1).0 == at_pos(s, p + 5),
        p_binary(t, at_pos(s, p), 1).1 is Ok,
        ({
            let e = p_binary(t, at_pos(s, p), 1).1->Ok_0;
            &&& is_node(e, t[p + 1int])
            &&& is_literal_of(*e->Binary_left, t[p as int])
            &&& is_node(*e->Binary_right, t[p + 3int])
            &&& is_literal_of(*(*e->Binary_right)->Binary_left, t[p + 2int])
            &&& is_literal_of(*(*e->Binary_right)->Binary_right, t[p + 4int])
        }),
        !binary_level(1, t[p + 3int].1@),
{
    lemma_factor_literal(t, s, p);
    lemma_factor_pair(t, s, p + 2);
    let sp = at_pos(s, p);
    assert(p_operand(t, sp, 1) == p_binary(t, sp, 0));
    let a = p_binary(t, sp, 0).1->Ok_0;
    assert(adv(at_pos(s, p + 1)) == at_pos(s, p + 2));
    assert(p_operand(t, at_pos(s, p + 2), 1) == p_binary(t, at_pos(s, p + 2), 0));
    let bc = p_binary(t, at_pos(s, p + 2), 0).1->Ok_0;
    let whole = ExprV::Binary { left: Box::new(a), operator: t[p + 1int], right: Box::new(bc), information: info(at_pos(s, p + 5)) };
    assert(p_binary_loop(t, at_pos(s, p + 5), 1, whole) == (at_pos(s, p + 5), Ok::<ExprV<ParseInfo>, ParseError>(whole)));
    assert(p_binary_loop(t, at_pos(s, p + 1), 1, a) == p_binary_loop(t, at_pos(s, p + 5), 1, whole));
}

/// `*` and `/` are of one level and associate to the left: `a / b * c` (any
/// two of them) is read as `(a / b) * c`, so `8 / 4 * 2` is `(8 / 4) * 2`.
pub proof fn lemma_factor_left_assoc(t: Seq<Token>, s: PState, p: nat)
    requires
        p + 5 < t.len(),
        literal_kind(t[p as int].1),
        t[p + 1int].1 is Slash || t[p + 1int].1 is Star,
        literal_kind(t[p + 2int].1),
        t[p + 3int].1 is Slash || t[p + 3int].1 is Star,
        literal_kind(t[p + 4int].1),
        t[p + 5int].1 is Semicolon,
    ensures
        p_binary(t, at_pos(s, p), 1).0 == at_pos(s, p + 5),
        p_binary(t, at_pos(s, p), 1).1 is Ok,
        ({
            let e = p_binary(t, at_pos(s, p), 1).1->Ok_0;
            &&& is_node(e, t[p + 3int])
            &&& is_literal_of(*e->Binary_right, t[p + 4int])
            &&& is_node(*e->Binary_left, t[p + 1int])
            &&& is_literal_of(*(*e->Binary_left)->Binary_left, t[p as int])
            &&& is_literal_of(*(*e->Binary_left)->Binary_right, t[p + 2int])
        }),
{
    let sp = at_pos(s, p);
    lemma_unary_literal(t, s, p);
    lemma_unary_literal(t, s, p + 2);
    lemma_unary_literal(t, s, p + 4);
    let a = ExprV::Literal { literal: t[p as int], information: info(at_pos(s, p + 1)) };
    let b = ExprV::Literal { literal: t[p + 2int], information: info(at_pos(s, p + 3)) };
    let c = ExprV::Literal { literal: t[p + 4int], information: info(at_pos(s, p + 5)) };
    assert(p_operand(t, sp, 0) == p_unary(t, sp));
    assert(adv(at_pos(s, p + 1)) == at_pos(s, p + 2));
    assert(adv(at_pos(s, p + 3)) == at_pos(s, p + 4));
    assert(p_operand(t, at_pos(s, p + 2), 0) == p_unary(t, at_pos(s, p + 2)));
    assert(p_operand(t, at_pos(s, p + 4), 0) == p_unary(t, at_pos(s, p + 4)));
    let ab = ExprV::Binary { left: Box::new(a), operator: t[p + 1int], right: Box::new(b), information: info(at_pos(s, p + 3)) };
    let abc = ExprV::Binary { left: Box::new(ab), operator: t[p + 3int], right: Box::new(c), information: info(at_pos(s, p + 5)) };
    assert(p_binary_loop(t, at_pos(s, p + 5), 0, abc) == (at_pos(s, p + 5), Ok::<ExprV<ParseInfo>, ParseError>(abc)));
    assert(p_binary_loop(t, at_pos(s, p + 3), 0, ab) == p_binary_loop(t, at_pos(s, p + 5), 0, abc));
    assert(p_binary_loop(t, at_pos(s, p + 1), 0, a) == p_binary_loop(t, at_pos(s, p + 3), 0, ab));
    assert(p_binary(t, sp, 0) == (at_pos(s, p + 5), Ok::<ExprV<ParseInfo>, ParseError>(abc)));
    assert(p_operand(t, sp, 1) == p_binary(t, sp, 0));
    assert(p_binary_loop(t, at_pos(s, p + 5), 1, abc) == (at_pos(s, p + 5), Ok::<ExprV<ParseInfo>, ParseError>(abc)));
}

/// How tightly each binary operator of the language binds, tightest first:
/// `*` and `/`, then `+` and `-`, then the comparisons `<`, `<=`, `>`, `>=`,
/// then `==` and `!=`. Other tokens are no binary operators.
pub open spec fn precedence(k: TokenTypeView) -> Option<int> {
    match k {
        TokenKind::Star | TokenKind::Slash => Some(0),
        TokenKind::Plus | TokenKind::Minus => Some(1),
        TokenKind::Less | TokenKind::LessEqual | TokenKind::Greater | TokenKind::GreaterEqual => Some(2),
        TokenKind::EqualEqual | TokenKind::BangEqual => Some(3),
        _ => None,
    }
}

/// The literal at `q`, as the parser reads it from state `s` moved there.
pub open spec fn lit_at(t: Seq<Token>, s: PState, q: nat) -> ExprV<ParseInfo> {
    ExprV::Literal { literal: t[q as int], information: info(at_pos(s, q + 1)) }
}

/// A binary node over `l` and `r` with the operator at `q`, made in state `s` moved to `r_end`.
pub open spec fn node_at(t: Seq<Token>, s: PState, l: ExprV<ParseInfo>, q: nat, r: ExprV<ParseInfo>, r_end: nat) -> ExprV<ParseInfo> {
    ExprV::Binary { left: Box::new(l), operator: t[q as int], right: Box::new(r), information: info(at_pos(s, r_end)) }
}

/// The operator levels of the parser are those of `precedence`.
proof fn lemma_levels(k: TokenTypeView, level: int)
    requires
        0 <= level <= 3,
    ensures
        binary_level(level, k) <==> precedence(k) == Some(level),
{
}

/// A literal followed by a token that is no operator at level `lv` or below is
/// read by the chain of level `lv` as that literal.
proof fn lemma_chain_single(t: Seq<Token>, s: PState, q: nat, lv: int)
    requires
        0 <= lv <= 3,
        q + 1 < t.len(),
        literal_kind(t[q as int].1),
        precedence(t[q + 1int].1@) is None || precedence(t[q + 1int].1@)->0 > lv,
    ensures
        p_binary(t, at_pos(s, q), lv) == (at_pos(s, q + 1), Ok::<ExprV<ParseInfo>, ParseError>(lit_at(t, s, q))),
    decreases lv,
{
    lemma_levels(t[q + 1int].1@, lv);
    let sq = at_pos(s, q);
    if lv == 0 {
        lemma_unary_literal(t, s, q);
        assert(p_operand(t, sq, 0) == p_unary(t, sq));
    } else {
        lemma_chain_single(t, s, q, lv - 1);
        assert(p_operand(t, sq, lv) == p_binary(t, sq, lv - 1));
    }
    assert(p_binary_loop(t, at_pos(s, q + 1), lv, lit_at(t, s, q)) == (
        at_pos(s, q + 1),
        Ok::<ExprV<ParseInfo>, ParseError>(lit_at(t, s, q)),
    ));
}

/// A chain read at level `lv` that stops before a token that is no operator at
/// level `lv + 1` is read the same at level `lv + 1`.
proof fn lemma_chain_up(t: Seq<Token>, s: PState, q: nat, r: nat, lv: int, e: ExprV<ParseInfo>)
    requires
        0 <= lv < 3,
        q <= r < t.len(),
        p_binary(t, at_pos(s, q), lv) == (at_pos(s, r), Ok::<ExprV<ParseInfo>, ParseError>(e)),
        precedence(t[r as int].1@) != Some(lv + 1),
    ensures
        p_binary(t, at_pos(s, q), lv + 1) == (at_pos(s, r), Ok::<ExprV<ParseInfo>, ParseError>(e)),
{
    lemma_levels(t[r as int].1@, lv + 1);
    let sq = at_pos(s, q);
    assert(p_operand(t, sq, lv + 1) == p_binary(t, sq, lv));
    assert(p_binary_loop(t, at_pos(s, r), lv + 1, e) == (at_pos(s, r), Ok::<ExprV<ParseInfo>, ParseError>(e)));
}

/// Lifts a chain from level `lv` to level 3 past a token that is no operator.
proof fn lemma_chain_top(t: Seq<Token>, s: PState, q: nat, r: nat, lv: int, e: ExprV<ParseInfo>)
    requires
        0 <= lv <= 3,
        q <= r < t.len(),
        p_binary(t, at_pos(s, q), lv) == (at_pos(s, r), Ok::<ExprV<ParseInfo>, ParseError>(e)),
        precedence(t[r as int].1@) is None,
    ensures
        p_binary(t, at_pos(s, q), 3) == (at_pos(s, r), Ok::<ExprV<ParseInfo>, ParseError>(e)),
    decreases 3 - lv,
{
    if lv < 3 {
        lemma_chain_up(t, s, q, r, lv, e);
        lemma_chain_top(t, s, q, r, lv + 1, e);
    }
}

/// Two literals joined by an operator of level `lv`, followed by a token that is
/// no operator at level `lv` or below, are one node at level `lv`.
proof fn lemma_chain_pair(t: Seq<Token>, s: PState, q: nat, lv: int)
    requires
        0 <= lv <= 3,
        q + 3 < t.len(),
        literal_kind(t[q as int].1),
        precedence(t[q + 1int].1@) == Some(lv),
        literal_kind(t[q + 2int].1),
        precedence(t[q + 3int].1@) is None || precedence(t[q + 3int].1@)->0 > lv,
    ensures
        p_binary(t, at_pos(s, q), lv) == (
            at_pos(s, q + 3),
            Ok::<ExprV<ParseInfo>, ParseError>(node_at(t, s, lit_at(t, s, q), q + 1, lit_at(t, s, q + 2), q + 3)),
        ),
{
    lemma_levels(t[q + 1int].1@, lv);
    lemma_levels(t[q + 3int].1@, lv);
    let sq = at_pos(s, q);
    let a = lit_at(t, s, q);
    let b = lit_at(t, s, q + 2);
    assert(adv(at_pos(s, q + 1)) == at_pos(s, q + 2));
    if lv == 0 {
        lemma_unary_literal(t, s, q);
        lemma_unary_literal(t, s, q + 2);
        assert(p_operand(t, sq, 0) == p_unary(t, sq));
        assert(p_operand(t, at_pos(s, q + 2), 0) == p_unary(t, at_pos(s, q + 2)));
    } else {
        lemma_chain_single(t, s, q, lv - 1);
        lemma_chain_single(t, s, q + 2, lv - 1);
        assert(p_operand(t, sq, lv) == p_binary(t, sq, lv - 1));
        assert(p_operand(t, at_pos(s, q + 2), lv) == p_binary(t, at_pos(s, q + 2), lv - 1));
    }
    let ab = node_at(t, s, a, q + 1, b, q + 3);
    assert(p_binary_loop(t, at_pos(s, q + 3), lv, ab) == (at_pos(s, q + 3), Ok::<ExprV<ParseInfo>, ParseError>(ab)));
    assert(p_binary_loop(t, at_pos(s, q + 1), lv, a) == p_binary_loop(t, at_pos(s, q + 3), lv, ab));
}

/// Binary operators nest by precedence: in `a op1 b op2 c` (three literals,
/// then a token that is no operator), where `op2` binds tighter than `op1` the
/// whole is `a op1 (b op2 c)`, and otherwise it is `(a op1 b) op2 c`; operators
/// that bind alike associate to the left. So `1 + 6 / 2` is `1 + (6 / 2)`,
/// `2 * 3 - 1` is `(2 * 3) - 1`, `8 / 4 * 2` is `(8 / 4) * 2`, and
/// `a == b < c` is `a == (b < c)`.
pub proof fn lemma_precedence(t: Seq<Token>, s: PState, p: nat)
    requires
        p + 5 < t.len(),
        literal_kind(t[p as int].1),
        precedence(t[p + 1int].1@) is Some,
        literal_kind(t[p + 2int].1),
        precedence(t[p + 3int].1@) is Some,
        literal_kind(t[p + 4int].1),
        precedence(t[p + 5int].1@) is None,
    ensures
        p_binary(t, at_pos(s, p), 3).0 == at_pos(s, p + 5),
        p_binary(t, at_pos(s, p), 3).1 is Ok,
        ({
            let e = p_binary(t, at_pos(s, p), 3).1->Ok_0;
            if precedence(t[p + 3int].1@)->0 < precedence(t[p + 1int].1@)->0 {
                &&& is_node(e, t[p + 1int])
                &&& is_literal_of(*e->Binary_left, t[p as int])
                &&& is_node(*e->Binary_right, t[p + 3int])
                &&& is_literal_of(*(*e->Binary_right)->Binary_left, t[p + 2int])
                &&& is_literal_of(*(*e->Binary_right)->Binary_right, t[p + 4int])
            } else {
                &&& is_node(e, t[p + 3int])
                &&& is_literal_of(*e->Binary_right, t[p + 4int])
                &&& is_node(*e->Binary_left, t[p + 1int])
                &&& is_literal_of(*(*e->Binary_left)->Binary_left, t[p as int])
                &&& is_literal_of(*(*e->Binary_left)->Binary_right, t[p + 2int])
            }
        }),
{
    let j = precedence(t[p + 1int].1@)->0;
    let i = precedence(t[p + 3int].1@)->0;
    let sp = at_pos(s, p);
    let a = lit_at(t, s, p);
    let b = lit_at(t, s, p + 2);
    let c = lit_at(t, s, p + 4);
    lemma_levels(t[p + 1int].1@, j);
    lemma_levels(t[p + 3int].1@, j);
    lemma_levels(t[p + 3int].1@, i);
    lemma_levels(t[p + 5int].1@, j);
    lemma_levels(t[p + 5int].1@, i);
    assert(adv(at_pos(s, p + 1)) == at_pos(s, p + 2));
    assert(adv(at_pos(s, p + 3)) == at_pos(s, p + 4));
    if i < j {
        lemma_chain_single(t, s, p, j - 1);
        lemma_chain_pair(t, s, p + 2, i);
        let bc = node_at(t, s, b, p + 3, c, p + 5);
        lemma_raise(t, s, p + 2, p + 5, i, j - 1, bc);
        assert(p_operand(t, sp, j) == p_binary(t, sp, j - 1));
        assert(p_operand(t, at_pos(s, p + 2), j) == p_binary(t, at_pos(s, p + 2), j - 1));
        let whole = node_at(t, s, a, p + 1, bc, p + 5);
        assert(p_binary_loop(t, at_pos(s, p + 5), j, whole) == (
            at_pos(s, p + 5),
            Ok::<ExprV<ParseInfo>, ParseError>(whole),
        ));
        assert(p_binary_loop(t, at_pos(s, p + 1), j, a) == p_binary_loop(t, at_pos(s, p + 5), j, whole));
        lemma_chain_top(t, s, p, p + 5, j, whole);
    } else {
        let ab = node_at(t, s, a, p + 1, b, p + 3);
        if i == j {
            lemma_chain_single(t, s, p + 4, i);
            if j == 0 {
                lemma_unary_literal(t, s, p);
                lemma_unary_literal(t, s, p + 2);
                lemma_unary_literal(t, s, p + 4);
                assert(p_operand(t, sp, 0) == p_unary(t, sp));
                assert(p_operand(t, at_pos(s, p + 2), 0) == p_unary(t, at_pos(s, p + 2)));
                assert(p_operand(t, at_pos(s, p + 4), 0) == p_unary(t, at_pos(s, p + 4)));
            } else {
                lemma_chain_single(t, s, p, j - 1);
                lemma_chain_single(t, s, p + 2, j - 1);
                lemma_chain_single(t, s, p + 4, j - 1);
                assert(p_operand(t, sp, j) == p_binary(t, sp, j - 1));
                assert(p_operand(t, at_pos(s, p + 2), j) == p_binary(t, at_pos(s, p + 2), j - 1));
                assert(p_operand(t, at_pos(s, p + 4), j) == p_binary(t, at_pos(s, p + 4), j - 1));
            }
            let abc = node_at(t, s, ab, p + 3, c, p + 5);
            assert(p_binary_loop(t, at_pos(s, p + 5), j, abc) == (
                at_pos(s, p + 5),
                Ok::<ExprV<ParseInfo>, ParseError>(abc),
            ));
            assert(p_binary_loop(t, at_pos(s, p + 3), j, ab) == p_binary_loop(t, at_pos(s, p + 5), j, abc));
            assert(p_binary_loop(t, at_pos(s, p + 1), j, a) == p_binary_loop(t, at_pos(s, p + 3), j, ab));
            lemma_chain_top(t, s, p, p + 5, j, abc);
        } else {
            lemma_chain_pair(t, s, p, j);
            lemma_raise(t, s, p, p + 3, j, i - 1, ab);
            lemma_chain_single(t, s, p + 4, i - 1);
            assert(p_operand(t, sp, i) == p_binary(t, sp, i - 1));
            assert(p_operand(t, at_pos(s, p + 4), i) == p_binary(t, at_pos(s, p + 4), i - 1));
            let abc = node_at(t, s, ab, p + 3, c, p + 5);
            assert(p_binary_loop(t, at_pos(s, p + 5), i, abc) == (
                at_pos(s, p + 5),
                Ok::<ExprV<ParseInfo>, ParseError>(abc),
            ));
            assert(p_binary_loop(t, at_pos(s, p + 3), i, ab) == p_binary_loop(t, at_pos(s, p + 5), i, abc));
            lemma_chain_top(t, s, p, p + 5, i, abc);
        }
    }
}

/// Lifts a chain from level `lo` to level `hi` past a token that is no
/// operator at any level in between.
proof fn lemma_raise(t: Seq<Token>, s: PState, q: nat, r: nat, lo: int, hi: int, e: ExprV<ParseInfo>)
    requires
        0 <= lo <= hi <= 3,
        q <= r < t.len(),
        p_binary(t, at_pos(s, q), lo) == (at_pos(s, r), Ok::<ExprV<ParseInfo>, ParseError>(e)),
        precedence(t[r as int].1@) is None || precedence(t[r as int].1@)->0 <= lo || precedence(t[r as int].1@)->0 > hi,
    ensures
        p_binary(t, at_pos(s, q), hi) == (at_pos(s, r), Ok::<ExprV<ParseInfo>, ParseError>(e)),
    decreases hi - lo,
{
    if lo < hi {
        lemma_chain_up(t, s, q, r, lo, e);
        lemma_raise(t, s, q, r, lo + 1, hi, e);
    }
}

} // verus!
