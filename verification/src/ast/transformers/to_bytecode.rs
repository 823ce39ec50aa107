//! Bytecode generation from a type-checked tree.

use vstd::prelude::*;
use crate::ast::symbol::{Scopes, TableView, SymbolData, resolve_at};
use crate::ast::tree::{AbstractTree, InnerAbstractTree, Expression, Statement, Function, FunctionArg, Item, expr_info};
use crate::ast::transformers::TransformError;
use crate::ast::transformers::typeck::{TypeCkOutput, TypeInformation};
use crate::bytecode::{
    Chunk, ChunkView, OpCode, ThetaConstant, ThetaFuncArg, ThetaFunction, ThetaString, code_size, merged,
    mergeable, lemma_merge_laws, op_relocatable, ops_relocated,
};
use crate::lexer::token::{Token, TokenKind, TokenType, token_text};
use crate::bytecode::{op_bytes, ValView};
use crate::vm::{VmView, VmError, StepView, step_spec, with_pair, trunc_div, lemma_integer_instructions, constant_value};
use crate::text::{string_from_str, push_str};

verus! {

broadcast use vstd::std_specs::vec::axiom_vec_index_decreases;

/// Why bytecode generation failed.
#[derive(Debug)]
pub enum ToByteCodeError {
    InvalidToken(String),
    InvalidLocal(String),
    NoIdentFound(String),
}

/// A generation error, with its message seen as characters.
pub enum BcError {
    InvalidToken(Seq<char>),
    InvalidLocal(Seq<char>),
    NoIdentFound(Seq<char>),
}

impl View for ToByteCodeError {
    type V = BcError;

    open spec fn view(&self) -> BcError {
        match self {
            ToByteCodeError::InvalidToken(s) => BcError::InvalidToken(s@),
            ToByteCodeError::InvalidLocal(s) => BcError::InvalidLocal(s@),
            ToByteCodeError::NoIdentFound(s) => BcError::NoIdentFound(s@),
        }
    }
}

/// A chunk of the given instructions and constants.
pub open spec fn cv(ops: Seq<OpCode>, pool: Seq<ThetaConstant>) -> ChunkView {
    ChunkView { ops, pool }
}

/// The chunk with nothing in it.
pub open spec fn empty_chunk() -> ChunkView {
    cv(seq![], seq![])
}

/// Whether every constant-pool operand of `op` points into a pool of `n` constants.
pub open spec fn op_in_pool(op: OpCode, n: nat) -> bool {
    match op {
        OpCode::Constant { offset } => offset < n,
        OpCode::DefineGlobal { offset } => offset < n,
        OpCode::GetGlobal { offset } => offset < n,
        _ => true,
    }
}

/// Whether every constant-pool operand of the chunk points into its pool.
pub open spec fn in_pool(c: ChunkView) -> bool {
    forall|i: int| 0 <= i < c.ops.len() ==> op_in_pool(#[trigger] c.ops[i], c.pool.len())
}

/// The bit pattern given for a float literal written `text`, if any.
pub open spec fn float_bits(table: Seq<(String, u64)>, text: Seq<char>) -> Option<u64>
    decreases table.len(),
{
    if table.len() == 0 {
        None
    } else if table[0].0@ == text {
        Some(table[0].1)
    } else {
        float_bits(table.subrange(1, table.len() as int), text)
    }
}

/// A conditional jump of `j` bytes, backwards when `negate`: a local jump
/// when `j` fits in a signed byte, a far jump otherwise.
pub open spec fn cond_jump(j: nat, negate: bool) -> ChunkView {
    let o: int = if negate {
        -j
    } else {
        j as int
    };
    if j > 127 {
        cv(seq![OpCode::JumpFarIfFalse { offset: o as isize }], seq![])
    } else {
        cv(seq![OpCode::JumpLocalIfFalse { offset: o as i8 }], seq![])
    }
}

/// An unconditional jump of `j` bytes, backwards when `negate`.
pub open spec fn uncond_jump(j: nat, negate: bool) -> ChunkView {
    let o: int = if negate {
        -j
    } else {
        j as int
    };
    if j > 127 {
        cv(seq![OpCode::JumpFar { offset: o as isize }], seq![])
    } else {
        cv(seq![OpCode::JumpLocal { offset: o as i8 }], seq![])
    }
}

/// An unconditional far jump of `j` bytes, backwards when `negate`.
pub open spec fn far_jump(j: nat, negate: bool) -> ChunkView {
    let o: int = if negate {
        -j
    } else {
        j as int
    };
    cv(seq![OpCode::JumpFar { offset: o as isize }], seq![])
}

/// The code for a binary operator, if it has one.
pub open spec fn binary_ops(op: TokenKind<String>) -> Option<Seq<OpCode>> {
    match op {
        TokenKind::Plus => Some(seq![OpCode::Add]),
        TokenKind::Minus => Some(seq![OpCode::Subtract]),
        TokenKind::Slash => Some(seq![OpCode::Divide]),
        TokenKind::Star => Some(seq![OpCode::Multiply]),
        TokenKind::Less => Some(seq![OpCode::LessThan]),
        TokenKind::LessEqual => Some(seq![OpCode::Add]),
        TokenKind::Greater => Some(seq![OpCode::GreaterThan]),
        TokenKind::GreaterEqual => Some(seq![OpCode::Add]),
        TokenKind::EqualEqual => Some(seq![OpCode::Equal]),
        TokenKind::BangEqual => Some(seq![OpCode::Equal, OpCode::Negate]),
        _ => None,
    }
}

/// The code of a two-operand expression: the left operand's code, then the
/// right operand's with its constant operands moved past the left's constants,
/// then the operator's instructions; the constants are the left's and then the
/// right's. An operator with no instructions is refused as an invalid token.
pub proof fn lemma_binary_code(
    sc: Seq<TableView>,
    fl: Seq<(String, u64)>,
    left: Expression<TypeCkOutput>,
    operator: Token,
    right: Expression<TypeCkOutput>,
    information: TypeCkOutput,
)
    requires
        bc_expr(sc, fl, left) is Ok,
        bc_expr(sc, fl, right) is Ok,
    ensures
        ({
            let e = Expression::Binary { left: Box::new(left), operator, right: Box::new(right), information };
            let l = bc_expr(sc, fl, left)->Ok_0;
            let r = bc_expr(sc, fl, right)->Ok_0;
            match binary_ops(operator.1) {
                Some(k) => bc_expr(sc, fl, e) == Ok::<ChunkView, BcError>(
                    cv(l.ops + ops_relocated(r.ops, l.pool.len()) + k, l.pool + r.pool),
                ),
                None => bc_expr(sc, fl, e) matches Err(BcError::InvalidToken(_)),
            }
        }),
{
    let l = bc_expr(sc, fl, left)->Ok_0;
    let r = bc_expr(sc, fl, right)->Ok_0;
    match binary_ops(operator.1) {
        Some(k) => {
            let lr = merged(l, r);
            assert(ops_relocated(k, lr.pool.len()) =~= k);
            assert(merged(lr, cv(k, seq![])).ops =~= l.ops + ops_relocated(r.ops, l.pool.len()) + k);
            assert(merged(lr, cv(k, seq![])).pool =~= l.pool + r.pool);
        },
        None => {},
    }
}

/// Each operator of the language compiles to the instruction of its own
/// operation: run by the machine on two integers `x` (the left operand) and `y`,
/// the code of `+`, `-`, `*`, `/` pushes `x + y`, `x - y`, `x * y` and the
/// quotient rounded toward zero (where it fits in 64 bits and `y` is not zero),
/// and the code of `<`, `>`, `==` pushes the truth of `x < y`, `x > y`, `x == y`.
pub proof fn lemma_operator_code(k: TokenType, m: VmView, x: i64, y: i64)
    requires
        m.stack.frames.len() > 0,
        k is Plus || k is Minus || k is Star || k is Slash || k is Less || k is Greater || k is EqualEqual,
    ensures
        binary_ops(k) is Some,
        binary_ops(k)->0.len() == 1,
        ({
            let run = step_spec(
                with_pair(m, ValView::Int(x), ValView::Int(y)),
                op_bytes(binary_ops(k)->0[0]),
                0,
            );
            let gives = |v: ValView| Ok::<(VmView, StepView), VmError>((m.push(v), StepView::Continue(1)));
            &&& k is Less ==> run == gives(ValView::Bool(x < y))
            &&& k is Greater ==> run == gives(ValView::Bool(x > y))
            &&& k is EqualEqual ==> run == gives(ValView::Bool(x == y))
            &&& k is Plus && i64::MIN <= x + y <= i64::MAX ==> run == gives(ValView::Int((x + y) as i64))
            &&& k is Minus && i64::MIN <= x - y <= i64::MAX ==> run == gives(ValView::Int((x - y) as i64))
            &&& k is Star && i64::MIN <= x * y <= i64::MAX ==> run == gives(ValView::Int((x * y) as i64))
            &&& k is Slash && y != 0 && i64::MIN <= trunc_div(x as int, y as int) <= i64::MAX ==> run == gives(
                ValView::Int(trunc_div(x as int, y as int) as i64),
            )
        }),
{
    lemma_integer_instructions(m, x, y);
}

/// The code of an integer, boolean or string literal, run by a machine whose
/// constants are those of the code, pushes the literal's value and goes on
/// past the instruction.
pub proof fn lemma_literal_code(
    sc: Seq<TableView>,
    fl: Seq<(String, u64)>,
    literal: Token,
    pi: crate::parser::ParseInfo,
    m: VmView,
)
    requires
        m.stack.frames.len() > 0,
        literal.1 is Integer || literal.1 is True || literal.1 is False || literal.1 is Str,
        bc_literal(sc, fl, literal, pi) is Ok,
        m.constants == bc_literal(sc, fl, literal, pi)->Ok_0.pool.map_values(|c: ThetaConstant| constant_value(c@)),
    ensures
        ({
            let c = bc_literal(sc, fl, literal, pi)->Ok_0;
            let v = match literal.1 {
                TokenKind::Integer(i) => ValView::Int(i as i64),
                TokenKind::True => ValView::Bool(true),
                TokenKind::False => ValView::Bool(false),
                TokenKind::Str(st) => ValView::Str(st@),
                _ => ValView::Bool(false),
            };
            &&& c.ops.len() == 1
            &&& step_spec(m, op_bytes(c.ops[0]), 0) == Ok::<(VmView, StepView), VmError>(
                (m.push(v), StepView::Continue(2)),
            )
        }),
{
}

/// The number of nodes of an expression.
pub open spec fn weight(e: Expression<TypeCkOutput>) -> nat
    decreases e,
{
    match e {
        Expression::Binary { left, right, .. } => 1 + weight(*left) + weight(*right),
        Expression::Unary { right, .. } => 1 + weight(*right),
        Expression::Literal { .. } => 1,
        Expression::Sequence { seq, .. } => 1 + weights(seq@),
        Expression::Assignment { value, .. } => 1 + weight(*value),
        Expression::If { check_expression, body, else_body, .. } => 1 + weight(*check_expression) + weight(
            *body,
        ) + match else_body {
            Some(x) => weight(*x),
            None => 0,
        },
        Expression::BlockExpression { statements, .. } => 1 + stmt_weights(statements@),
        Expression::LoopExpression { predicate, body, .. } => 1 + weight(*body) + match predicate {
            Some(x) => weight(*x),
            None => 0,
        },
    }
}

/// The number of nodes of a list of expressions.
pub open spec fn weights(s: Seq<Expression<TypeCkOutput>>) -> nat
    decreases s,
{
    if s.len() == 0 {
        0
    } else {
        weights(s.subrange(0, s.len() - 1)) + weight(s[s.len() - 1])
    }
}

/// The number of nodes of a statement.
pub open spec fn stmt_weight(s: Statement<TypeCkOutput>) -> nat
    decreases s,
{
    match s {
        Statement::ExpressionStatement { expression, .. } => 1 + weight(expression),
        Statement::PrintStatement { expression, .. } => 1 + weight(expression),
        Statement::VarStatement { init, .. } => 1 + weight(init),
    }
}

/// The number of nodes of a list of statements.
pub open spec fn stmt_weights(s: Seq<Statement<TypeCkOutput>>) -> nat
    decreases s,
{
    if s.len() == 0 {
        0
    } else {
        stmt_weights(s.subrange(0, s.len() - 1)) + stmt_weight(s[s.len() - 1])
    }
}

/// The code of the sequence `s`, one expression after the other; `s` is not empty.
pub open spec fn bc_seq(sc: Seq<TableView>, fl: Seq<(String, u64)>, s: Seq<Expression<TypeCkOutput>>) -> Result<
    ChunkView,
    BcError,
>
    decreases s,
{
    if s.len() == 0 {
        Ok(empty_chunk())
    } else if s.len() == 1 {
        bc_expr(sc, fl, s[0])
    } else {
        match bc_seq(sc, fl, s.subrange(0, s.len() - 1)) {
            Err(e) => Err(e),
            Ok(a) => match bc_expr(sc, fl, s[s.len() - 1]) {
                Err(e) => Err(e),
                Ok(b) => Ok(merged(a, b)),
            },
        }
    }
}

/// The code of the statements `s`, one after the other.
pub open spec fn bc_stmts(sc: Seq<TableView>, fl: Seq<(String, u64)>, s: Seq<Statement<TypeCkOutput>>) -> Result<
    ChunkView,
    BcError,
>
    decreases s,
{
    if s.len() == 0 {
        Ok(empty_chunk())
    } else {
        match bc_stmts(sc, fl, s.subrange(0, s.len() - 1)) {
            Err(e) => Err(e),
            Ok(a) => match bc_stmt(sc, fl, s[s.len() - 1]) {
                Err(e) => Err(e),
                Ok(b) => Ok(merged(a, b)),
            },
        }
    }
}

/// The code of a name read as a value: a global when the scope is the
/// outermost one, else what the symbol table says the name is.
pub open spec fn bc_name(sc: Seq<TableView>, id: String, pi: crate::parser::ParseInfo) -> Result<ChunkView, BcError> {
    if pi.scope_depth == 0 {
        Ok(cv(seq![OpCode::GetGlobal { offset: 0 }], seq![ThetaConstant::Str(id)]))
    } else {
        match resolve_at(sc, pi.current_symbol_table as nat, id@, pi.scope_depth as nat) {
            Some(SymbolData::Type { .. }) => Err(BcError::InvalidLocal(id@)),
            Some(SymbolData::GlobalVariable { .. }) => Ok(
                cv(seq![OpCode::GetGlobal { offset: 0 }], seq![ThetaConstant::Str(id)]),
            ),
            Some(SymbolData::LocalVariable { slot, .. }) => Ok(cv(seq![OpCode::GetLocal { offset: slot }], seq![])),
            None => Err(BcError::NoIdentFound(id@)),
        }
    }
}

/// The code of a literal.
pub open spec fn bc_literal(sc: Seq<TableView>, fl: Seq<(String, u64)>, literal: Token, pi: crate::parser::ParseInfo) -> Result<
    ChunkView,
    BcError,
> {
    let k = cv(seq![OpCode::Constant { offset: 0 }], seq![]);
    match literal.1 {
        TokenKind::Integer(i) => Ok(cv(k.ops, seq![ThetaConstant::Int(i as i64)])),
        TokenKind::Float(text) => match float_bits(fl, text@) {
            Some(b) => Ok(cv(k.ops, seq![ThetaConstant::Double(b)])),
            None => Err(BcError::InvalidToken("when expected literal: "@ + token_text(literal@))),
        },
        TokenKind::True => Ok(cv(k.ops, seq![ThetaConstant::Bool(true)])),
        TokenKind::False => Ok(cv(k.ops, seq![ThetaConstant::Bool(false)])),
        TokenKind::Str(s) => Ok(cv(k.ops, seq![ThetaConstant::Str(s)])),
        TokenKind::Identifier(id) => bc_name(sc, id, pi),
        _ => Err(BcError::InvalidToken("when expected literal: "@ + token_text(literal@))),
    }
}

/// The code of an if expression, from the code of its parts: the check, a
/// jump over the body when the check is false, the body, and a jump over
/// the else branch (or over nothing).
pub open spec fn if_code(check: ChunkView, body: ChunkView, else_code: Option<ChunkView>) -> ChunkView {
    let jump_size: int = code_size(body.ops) as int + 2;
    let jump = if jump_size + 2 > 127 {
        cv(seq![OpCode::JumpFarIfFalse { offset: (jump_size + 2 + 8) as isize }, OpCode::Pop], seq![])
    } else {
        cv(seq![OpCode::JumpLocalIfFalse { offset: (jump_size + 3) as i8 }, OpCode::Pop], seq![])
    };
    let combined = merged(merged(check, jump), body);
    match else_code {
        Some(el) => {
            let js: int = code_size(el.ops) as int;
            let jump2 = if js + 2 > 127 {
                cv(seq![OpCode::JumpFar { offset: (js + 2 + 8) as isize }, OpCode::Pop], seq![])
            } else {
                cv(seq![OpCode::JumpLocal { offset: (js + 3) as i8 }, OpCode::Pop], seq![])
            };
            merged(merged(combined, jump2), el)
        },
        None => merged(combined, cv(seq![OpCode::JumpLocal { offset: 3 }, OpCode::Pop], seq![])),
    }
}

/// The code of a loop, from the code of its body and predicate: the
/// predicate, a jump past the loop when it is false, the body, and a jump
/// back to the start.
pub open spec fn loop_code(body: ChunkView, pred: Option<ChunkView>) -> ChunkView {
    let p = match pred {
        Some(x) => x,
        None => empty_chunk(),
    };
    let to_end = match pred {
        Some(_) => cond_jump(code_size(body.ops) + code_size(p.ops) + 5, false),
        None => empty_chunk(),
    };
    let head = merged(merged(p, to_end), body);
    merged(head, far_jump(code_size(head.ops), true))
}

/// The code generated for an expression, or the error reported.
pub open spec fn bc_expr(sc: Seq<TableView>, fl: Seq<(String, u64)>, e: Expression<TypeCkOutput>) -> Result<
    ChunkView,
    BcError,
>
    decreases e,
{
    match e {
        Expression::Binary { left, operator, right, .. } => match bc_expr(sc, fl, *left) {
            Err(x) => Err(x),
            Ok(l) => match bc_expr(sc, fl, *right) {
                Err(x) => Err(x),
                Ok(r) => match binary_ops(operator.1) {
                    Some(ops) => Ok(merged(merged(l, r), cv(ops, seq![]))),
                    None => Err(BcError::InvalidToken("in binary precedence: "@ + token_text(operator@))),
                },
            },
        },
        Expression::Unary { operator, right, .. } => match bc_expr(sc, fl, *right) {
            Err(x) => Err(x),
            Ok(r) => if operator.1 is Minus {
                Ok(merged(r, cv(seq![OpCode::Negate], seq![])))
            } else {
                Err(BcError::InvalidToken("in unary precedence: "@ + token_text(operator@)))
            },
        },
        Expression::Literal { literal, information } => bc_literal(sc, fl, literal, information.pi),
        Expression::Sequence { seq, .. } => if seq@.len() == 0 {
            Ok(empty_chunk())
        } else {
            bc_seq(sc, fl, seq@)
        },
        Expression::Assignment { name, value, information } => match bc_expr(sc, fl, *value) {
            Err(x) => Err(x),
            Ok(v) => {
                let st = ThetaConstant::Str(name.name());
                match resolve_at(
                    sc,
                    information.pi.current_symbol_table as nat,
                    name@,
                    information.pi.scope_depth as nat,
                ) {
                    Some(SymbolData::LocalVariable { slot, .. }) => Ok(
                        merged(v, cv(seq![OpCode::DefineLocal { offset: slot }], seq![st])),
                    ),
                    _ => Ok(merged(v, cv(seq![OpCode::DefineGlobal { offset: 0 }], seq![st]))),
                }
            },
        },
        Expression::If { check_expression, body, else_body, .. } => match bc_expr(sc, fl, *check_expression) {
            Err(x) => Err(x),
            Ok(c) => match bc_expr(sc, fl, *body) {
                Err(x) => Err(x),
                Ok(b) => match else_body {
                    Some(eb) => match bc_expr(sc, fl, *eb) {
                        Err(x) => Err(x),
                        Ok(el) => Ok(if_code(c, b, Some(el))),
                    },
                    None => Ok(if_code(c, b, None)),
                },
            },
        },
        Expression::BlockExpression { statements, .. } => bc_stmts(sc, fl, statements@),
        Expression::LoopExpression { predicate, body, .. } => match bc_expr(sc, fl, *body) {
            Err(x) => Err(x),
            Ok(b) => match predicate {
                Some(p) => match bc_expr(sc, fl, *p) {
                    Err(x) => Err(x),
                    Ok(pc) => Ok(loop_code(b, Some(pc))),
                },
                None => Ok(loop_code(b, None)),
            },
        },
    }
}

/// The code generated for a statement, or the error reported.
pub open spec fn bc_stmt(sc: Seq<TableView>, fl: Seq<(String, u64)>, s: Statement<TypeCkOutput>) -> Result<
    ChunkView,
    BcError,
>
    decreases s,
{
    match s {
        Statement::ExpressionStatement { expression, .. } => match bc_expr(sc, fl, expression) {
            Err(x) => Err(x),
            Ok(c) => if expr_info(expression).ty is Unit {
                Ok(c)
            } else {
                Ok(merged(c, cv(seq![OpCode::Pop], seq![])))
            },
        },
        Statement::PrintStatement { expression, .. } => match bc_expr(sc, fl, expression) {
            Err(x) => Err(x),
            Ok(c) => Ok(merged(c, cv(seq![OpCode::DebugPrint], seq![]))),
        },
        Statement::VarStatement { ident, init, information } => match bc_expr(sc, fl, init) {
            Err(x) => Err(x),
            Ok(c) => if information.pi.scope_depth == 0 {
                Ok(merged(c, cv(seq![OpCode::DefineGlobal { offset: 0 }], seq![ThetaConstant::Str(ident.name())])))
            } else {
                match resolve_at(
                    sc,
                    information.pi.current_symbol_table as nat,
                    ident@,
                    information.pi.scope_depth as nat,
                ) {
                    Some(SymbolData::LocalVariable { slot, .. }) => Ok(
                        merged(c, cv(seq![OpCode::DefineLocal { offset: slot }], seq![])),
                    ),
                    Some(_) => Err(BcError::InvalidLocal(ident@)),
                    None => Err(BcError::NoIdentFound(ident@)),
                }
            },
        },
    }
}

/// Whether generating code for `e` runs to a result: every sequence has an
/// element and each of its elements generates code, and every assignment that
/// is reached names a variable in the symbol table.
pub open spec fn bc_total(sc: Seq<TableView>, fl: Seq<(String, u64)>, e: Expression<TypeCkOutput>) -> bool
    decreases e,
{
    match e {
        Expression::Binary { left, right, .. } => bc_total(sc, fl, *left) && (bc_expr(sc, fl, *left) is Ok
            ==> bc_total(sc, fl, *right)),
        Expression::Unary { right, .. } => bc_total(sc, fl, *right),
        Expression::Literal { .. } => true,
        Expression::Sequence { seq, .. } => seq@.len() > 0 && forall|i: int|
            0 <= i < seq@.len() ==> bc_total(sc, fl, #[trigger] seq@[i]) && bc_expr(sc, fl, seq@[i]) is Ok,
        Expression::Assignment { name, value, information } => bc_total(sc, fl, *value) && (bc_expr(
            sc,
            fl,
            *value,
        ) is Ok ==> match resolve_at(
            sc,
            information.pi.current_symbol_table as nat,
            name@,
            information.pi.scope_depth as nat,
        ) {
            Some(SymbolData::GlobalVariable { .. }) => true,
            Some(SymbolData::LocalVariable { .. }) => true,
            _ => false,
        }),
        Expression::If { check_expression, body, else_body, .. } => bc_total(sc, fl, *check_expression) && (
        bc_expr(sc, fl, *check_expression) is Ok ==> bc_total(sc, fl, *body) && (bc_expr(sc, fl, *body) is Ok
            ==> match else_body {
            Some(x) => bc_total(sc, fl, *x),
            None => true,
        })),
        Expression::BlockExpression { statements, .. } => forall|i: int|
            0 <= i < statements@.len() && bc_stmts(sc, fl, statements@.subrange(0, i)) is Ok ==> stmt_bc_total(
                sc,
                fl,
                #[trigger] statements@[i],
            ),
        Expression::LoopExpression { predicate, body, .. } => bc_total(sc, fl, *body) && (bc_expr(sc, fl, *body) is Ok
            ==> match predicate {
            Some(x) => bc_total(sc, fl, *x),
            None => true,
        }),
    }
}

/// Whether generating code for `s` runs to a result.
pub open spec fn stmt_bc_total(sc: Seq<TableView>, fl: Seq<(String, u64)>, s: Statement<TypeCkOutput>) -> bool
    decreases s,
{
    match s {
        Statement::ExpressionStatement { expression, .. } => bc_total(sc, fl, expression),
        Statement::PrintStatement { expression, .. } => bc_total(sc, fl, expression),
        Statement::VarStatement { init, .. } => bc_total(sc, fl, init),
    }
}


/// Appending chunks whose operands point into their pools gives such a chunk
/// again, with the pools and the code sizes added up.
pub proof fn lemma_join(a: ChunkView, b: ChunkView)
    requires
        in_pool(a),
        in_pool(b),
        a.pool.len() + b.pool.len() <= usize::MAX,
    ensures
        mergeable(a, b),
        in_pool(merged(a, b)),
        merged(a, b).pool.len() == a.pool.len() + b.pool.len(),
        code_size(merged(a, b).ops) == code_size(a.ops) + code_size(b.ops),
{
    lemma_merge_laws(a, b, b);
    assert forall|i: int| 0 <= i < b.ops.len() implies op_relocatable(#[trigger] b.ops[i], a.pool.len()) by {
        assert(op_in_pool(b.ops[i], b.pool.len()));
    }
    let m = merged(a, b);
    assert forall|i: int| 0 <= i < m.ops.len() implies op_in_pool(#[trigger] m.ops[i], m.pool.len()) by {
        if i < a.ops.len() {
            assert(op_in_pool(a.ops[i], a.pool.len()));
        } else {
            assert(op_in_pool(b.ops[i - a.ops.len()], b.pool.len()));
        }
    }
}

/// Appends chunk `b` to chunk `a`.
fn join(a: Chunk, b: Chunk) -> (r: Chunk)
    requires
        in_pool(a@),
        in_pool(b@),
        a@.pool.len() + b@.pool.len() <= usize::MAX,
    ensures
        r@ == merged(a@, b@),
        in_pool(r@),
        r@.pool.len() == a@.pool.len() + b@.pool.len(),
        code_size(r@.ops) == code_size(a@.ops) + code_size(b@.ops),
{
    proof {
        lemma_join(a@, b@);
    }
    a.merge_chunk(b)
}

/// The sizes of code of one and of two instructions.
proof fn lemma_small_sizes(a: OpCode, b: OpCode)
    ensures
        code_size(seq![a]) == crate::bytecode::op_size(a),
        code_size(seq![a, b]) == crate::bytecode::op_size(a) + crate::bytecode::op_size(b),
{
    let s1 = seq![a];
    let s2 = seq![a, b];
    assert(s1.drop_last() =~= Seq::<OpCode>::empty());
    assert(s1.last() == a);
    assert(code_size(Seq::<OpCode>::empty()) == 0);
    assert(code_size(s1) == code_size(s1.drop_last()) + crate::bytecode::op_size(s1.last()));
    assert(s2.drop_last() =~= s1);
    assert(s2.last() == b);
    assert(code_size(s2) == code_size(s2.drop_last()) + crate::bytecode::op_size(s2.last()));
}

/// The chunk of one instruction.
fn one(op: OpCode) -> (r: Chunk)
    ensures
        r@ == cv(seq![op], seq![]),
        in_pool(r@) <==> op_in_pool(op, 0),
        code_size(r@.ops) == crate::bytecode::op_size(op),
{
    proof {
        lemma_small_sizes(op, op);
    }
    let mut ops: Vec<OpCode> = Vec::new();
    ops.push(op);
    assert(ops@ =~= seq![op]);
    let r = Chunk::from_parts(ops, Vec::new());
    assert(r@.ops[0] == op);
    r
}

/// The chunk of two instructions.
fn two(op1: OpCode, op2: OpCode) -> (r: Chunk)
    ensures
        r@ == cv(seq![op1, op2], seq![]),
        op_in_pool(op1, 0) && op_in_pool(op2, 0) ==> in_pool(r@),
        code_size(r@.ops) == crate::bytecode::op_size(op1) + crate::bytecode::op_size(op2),
{
    proof {
        lemma_small_sizes(op1, op2);
    }
    let mut ops: Vec<OpCode> = Vec::new();
    ops.push(op1);
    ops.push(op2);
    assert(ops@ =~= seq![op1, op2]);
    Chunk::from_parts(ops, Vec::new())
}

/// The chunk of one instruction and one constant.
fn one_with(op: OpCode, c: ThetaConstant) -> (r: Chunk)
    ensures
        r@ == cv(seq![op], seq![c]),
        op_in_pool(op, 1) ==> in_pool(r@),
        code_size(r@.ops) == crate::bytecode::op_size(op),
{
    proof {
        lemma_small_sizes(op, op);
    }
    let mut ops: Vec<OpCode> = Vec::new();
    ops.push(op);
    let mut consts: Vec<ThetaConstant> = Vec::new();
    consts.push(c);
    assert(ops@ =~= seq![op]);
    assert(consts@ =~= seq![c]);
    Chunk::from_parts(ops, consts)
}

/// A conditional jump of `jump_size` bytes, backwards when `negate_offset`.
pub fn build_conditional_jump(jump_size: usize, negate_offset: bool) -> (r: Chunk)
    requires
        jump_size <= isize::MAX,
    ensures
        r@ == cond_jump(jump_size as nat, negate_offset),
{
    if jump_size > 127 {
        conditional_far_jump(jump_size, negate_offset)
    } else {
        conditional_local_jump(jump_size, negate_offset)
    }
}

/// A conditional jump of `jump_size` bytes, which fits in a signed byte.
pub fn conditional_local_jump(jump_size: usize, negate_offset: bool) -> (r: Chunk)
    requires
        jump_size <= 127,
    ensures
        r@ == cv(
            seq![OpCode::JumpLocalIfFalse { offset: (if negate_offset { -jump_size } else { jump_size as int }) as i8 }],
            seq![],
        ),
{
    let offset: i8 = jump_size as i8;
    let offset: i8 = if negate_offset {
        -offset
    } else {
        offset
    };
    one(OpCode::JumpLocalIfFalse { offset })
}

/// A conditional far jump of `jump_size` bytes.
pub fn conditional_far_jump(jump_size: usize, negate_offset: bool) -> (r: Chunk)
    requires
        jump_size <= isize::MAX,
    ensures
        r@ == cv(
            seq![OpCode::JumpFarIfFalse { offset: (if negate_offset { -jump_size } else { jump_size as int }) as isize }],
            seq![],
        ),
{
    let offset: isize = jump_size as isize;
    let offset: isize = if negate_offset {
        -offset
    } else {
        offset
    };
    one(OpCode::JumpFarIfFalse { offset })
}

/// An unconditional jump of `jump_size` bytes, backwards when `negate_offset`.
pub fn build_unconditional_jump(jump_size: usize, negate_offset: bool) -> (r: Chunk)
    requires
        jump_size <= isize::MAX,
    ensures
        r@ == uncond_jump(jump_size as nat, negate_offset),
{
    if jump_size > 127 {
        unconditional_far_jump(jump_size, negate_offset)
    } else {
        unconditional_local_jump(jump_size, negate_offset)
    }
}

/// An unconditional far jump of `jump_size` bytes.
pub fn unconditional_far_jump(jump_size: usize, negate_offset: bool) -> (r: Chunk)
    requires
        jump_size <= isize::MAX,
    ensures
        r@ == far_jump(jump_size as nat, negate_offset),
{
    let offset: isize = jump_size as isize;
    let offset: isize = if negate_offset {
        -offset
    } else {
        offset
    };
    one(OpCode::JumpFar { offset })
}

/// An unconditional jump of `jump_size` bytes, which fits in a signed byte.
pub fn unconditional_local_jump(jump_size: usize, negate_offset: bool) -> (r: Chunk)
    requires
        jump_size <= 127,
    ensures
        r@ == cv(
            seq![OpCode::JumpLocal { offset: (if negate_offset { -jump_size } else { jump_size as int }) as i8 }],
            seq![],
        ),
{
    let offset: i8 = jump_size as i8;
    let offset: i8 = if negate_offset {
        -offset
    } else {
        offset
    };
    one(OpCode::JumpLocal { offset })
}


/// Jumps are small and point into no pool, and neither does the empty chunk.
pub proof fn lemma_jump_chunks(j: nat, negate: bool)
    ensures
        in_pool(cond_jump(j, negate)),
        code_size(cond_jump(j, negate).ops) <= 9,
        in_pool(far_jump(j, negate)),
        code_size(far_jump(j, negate).ops) == 9,
        in_pool(empty_chunk()),
        code_size(empty_chunk().ops) == 0,
{
    let c = cond_jump(j, negate);
    let f = far_jump(j, negate);
    lemma_small_sizes(c.ops[0], c.ops[0]);
    lemma_small_sizes(f.ops[0], f.ops[0]);
    assert(c.ops =~= seq![c.ops[0]]);
    assert(f.ops =~= seq![f.ops[0]]);
}

/// The number of nodes of a prefix of a list of expressions, and of one more.
pub proof fn lemma_weights_prefix(s: Seq<Expression<TypeCkOutput>>, k: int)
    requires
        0 <= k <= s.len(),
    ensures
        weights(s.subrange(0, k)) <= weights(s),
        k < s.len() ==> weights(s.subrange(0, k + 1)) == weights(s.subrange(0, k)) + weight(s[k]),
    decreases s.len() - k,
{
    if k < s.len() {
        let t = s.subrange(0, k + 1);
        assert(t.subrange(0, t.len() - 1) =~= s.subrange(0, k));
        lemma_weights_prefix(s, k + 1);
    } else {
        assert(s.subrange(0, k) =~= s);
    }
}

/// The number of nodes of a prefix of a list of statements, and of one more.
pub proof fn lemma_stmt_weights_prefix(s: Seq<Statement<TypeCkOutput>>, k: int)
    requires
        0 <= k <= s.len(),
    ensures
        stmt_weights(s.subrange(0, k)) <= stmt_weights(s),
        k < s.len() ==> stmt_weights(s.subrange(0, k + 1)) == stmt_weights(s.subrange(0, k)) + stmt_weight(s[k]),
    decreases s.len() - k,
{
    if k < s.len() {
        let t = s.subrange(0, k + 1);
        assert(t.subrange(0, t.len() - 1) =~= s.subrange(0, k));
        lemma_stmt_weights_prefix(s, k + 1);
    } else {
        assert(s.subrange(0, k) =~= s);
    }
}

/// Once a prefix of `s` fails to generate, the whole of `s` fails with that error.
pub proof fn lemma_bc_stmts_prefix(sc: Seq<TableView>, fl: Seq<(String, u64)>, s: Seq<Statement<TypeCkOutput>>, k: int)
    requires
        0 <= k <= s.len(),
        bc_stmts(sc, fl, s.subrange(0, k)) is Err,
    ensures
        bc_stmts(sc, fl, s) == bc_stmts(sc, fl, s.subrange(0, k)),
    decreases s.len() - k,
{
    if k < s.len() {
        let t = s.subrange(0, k + 1);
        assert(t.subrange(0, t.len() - 1) =~= s.subrange(0, k));
        lemma_bc_stmts_prefix(sc, fl, s, k + 1);
    } else {
        assert(s.subrange(0, k) =~= s);
    }
}

/// The outcome of generating code for an expression, as a function of the result.
pub open spec fn generated(sc: Seq<TableView>, fl: Seq<(String, u64)>, e: Expression<TypeCkOutput>, r: Result<Chunk, TransformError>) -> bool {
    match r {
        Ok(c) => bc_expr(sc, fl, e) == Ok::<ChunkView, BcError>(c@) && in_pool(c@) && c@.pool.len() <= weight(e)
            && code_size(c@.ops) <= 20 * weight(e),
        Err(TransformError::ToByteCodeError(x)) => bc_expr(sc, fl, e) == Err::<ChunkView, BcError>(x@),
        Err(_) => false,
    }
}

/// The outcome of generating code for a statement, as a function of the result.
pub open spec fn generated_stmt(sc: Seq<TableView>, fl: Seq<(String, u64)>, s: Statement<TypeCkOutput>, r: Result<Chunk, TransformError>) -> bool {
    match r {
        Ok(c) => bc_stmt(sc, fl, s) == Ok::<ChunkView, BcError>(c@) && in_pool(c@) && c@.pool.len() <= stmt_weight(s)
            && code_size(c@.ops) <= 20 * stmt_weight(s),
        Err(TransformError::ToByteCodeError(x)) => bc_stmt(sc, fl, s) == Err::<ChunkView, BcError>(x@),
        Err(_) => false,
    }
}

fn bc_err<A>(e: ToByteCodeError) -> (r: Result<A, TransformError>)
    ensures
        r == Err::<A, TransformError>(TransformError::ToByteCodeError(e)),
{
    Err(TransformError::ToByteCodeError(e))
}

/// An invalid-token error: `prefix` followed by how the token is written.
fn bad_token(prefix: &str, tk: &Token) -> (r: ToByteCodeError)
    ensures
        r@ == BcError::InvalidToken(prefix@ + token_text(tk@)),
{
    let mut s = string_from_str(prefix);
    let d = tk.describe();
    push_str(&mut s, d.as_str());
    ToByteCodeError::InvalidToken(s)
}

/// The bytecode generator. Float literals take their bit patterns from a
/// table of the literals' texts, filled where floating point is available.
pub struct ToByteCode<'a> {
    scopes: &'a Scopes,
    floats: Vec<(String, u64)>,
}

impl<'a> ToByteCode<'a> {
    pub closed spec fn tables(&self) -> Seq<TableView> {
        self.scopes.tables()
    }

    pub closed spec fn frames(&self) -> Seq<crate::ast::symbol::FrameView> {
        self.scopes.frames()
    }

    pub closed spec fn floats(&self) -> Seq<(String, u64)> {
        self.floats@
    }

    pub fn new(scopes: &'a Scopes, floats: Vec<(String, u64)>) -> (r: ToByteCode<'a>)
        ensures
            r.tables() == scopes.tables(),
            r.frames() == scopes.frames(),
            r.floats() == floats@,
    {
        ToByteCode { scopes, floats }
    }

    /// The bit pattern given for the float literal written `text`.
    fn float_for(&self, text: &String) -> (r: Option<u64>)
        ensures
            r == float_bits(self.floats@, text@),
    {
        let mut i: usize = 0;
        assert(self.floats@.subrange(0, self.floats@.len() as int) =~= self.floats@);
        while i < self.floats.len()
            invariant
                i <= self.floats@.len(),
                float_bits(self.floats@, text@) == float_bits(
                    self.floats@.subrange(i as int, self.floats@.len() as int),
                    text@,
                ),
            decreases self.floats@.len() - i,
        {
            let ghost rest = self.floats@.subrange(i as int, self.floats@.len() as int);
            assert(rest[0] == self.floats@[i as int]);
            assert(rest.subrange(1, rest.len() as int) =~= self.floats@.subrange(i + 1, self.floats@.len() as int));
            if self.floats[i].0 == *text {
                return Some(self.floats[i].1);
            }
            i = i + 1;
        }
        None
    }

    /// The code that reads the name `id` as a value.
    fn name_code(&self, id: &String, pi: crate::parser::ParseInfo) -> (r: Result<Chunk, ToByteCodeError>)
        ensures
            match r {
                Ok(c) => bc_name(self.tables(), *id, pi) == Ok::<ChunkView, BcError>(c@) && in_pool(c@)
                    && c@.pool.len() <= 1 && code_size(c@.ops) <= 2,
                Err(x) => bc_name(self.tables(), *id, pi) == Err::<ChunkView, BcError>(x@),
            },
    {
        if pi.scope_depth == 0 {
            return Ok(one_with(OpCode::GetGlobal { offset: 0 }, ThetaConstant::Str(id.clone())));
        }
        let sym = crate::bytecode::Symbol::from_string(id.clone());
        match self.scopes.get_symbol_data(pi.current_symbol_table, &sym, pi.scope_depth) {
            Some(SymbolData::Type { .. }) => Err(ToByteCodeError::InvalidLocal(id.clone())),
            Some(SymbolData::GlobalVariable { .. }) => Ok(
                one_with(OpCode::GetGlobal { offset: 0 }, ThetaConstant::Str(id.clone())),
            ),
            Some(SymbolData::LocalVariable { slot, .. }) => Ok(one(OpCode::GetLocal { offset: slot })),
            None => Err(ToByteCodeError::NoIdentFound(id.clone())),
        }
    }

    /// The code of a literal.
    fn literal_code(&self, literal: &Token, pi: crate::parser::ParseInfo) -> (r: Result<Chunk, ToByteCodeError>)
        ensures
            match r {
                Ok(c) => bc_literal(self.tables(), self.floats(), *literal, pi) == Ok::<ChunkView, BcError>(c@)
                    && in_pool(c@) && c@.pool.len() <= 1 && code_size(c@.ops) <= 2,
                Err(x) => bc_literal(self.tables(), self.floats(), *literal, pi) == Err::<ChunkView, BcError>(x@),
            },
    {
        let k = OpCode::Constant { offset: 0 };
        match &literal.1 {
            TokenKind::Integer(i) => Ok(one_with(k, ThetaConstant::Int(*i as i64))),
            TokenKind::Float(text) => match self.float_for(text) {
                Some(b) => Ok(one_with(k, ThetaConstant::Double(b))),
                None => Err(bad_token("when expected literal: ", literal)),
            },
            TokenKind::True => Ok(one_with(k, ThetaConstant::Bool(true))),
            TokenKind::False => Ok(one_with(k, ThetaConstant::Bool(false))),
            TokenKind::Str(st) => Ok(one_with(k, ThetaConstant::Str(st.clone()))),
            TokenKind::Identifier(id) => self.name_code(id, pi),
            _ => Err(bad_token("when expected literal: ", literal)),
        }
    }
}


impl<'a> ToByteCode<'a> {
    /// Generates the code of an expression.
    #[verifier::rlimit(100)]
    #[verifier::spinoff_prover]
    pub fn visit_expression(&self, expr: &Expression<TypeCkOutput>) -> (r: Result<Chunk, TransformError>)
        requires
            bc_total(self.tables(), self.floats(), *expr),
            20 * weight(*expr) + 20 <= isize::MAX,
        ensures
            generated(self.tables(), self.floats(), *expr, r),
        decreases expr,
    {
        let ghost sc = self.tables();
        let ghost fl = self.floats();
        match expr {
            Expression::Binary { left, operator, right, .. } => {
                let left_val = match self.visit_expression(left) {
                    Ok(c) => c,
                    Err(e) => {
                        return Err(e);
                    },
                };
                let right_val = match self.visit_expression(right) {
                    Ok(c) => c,
                    Err(e) => {
                        return Err(e);
                    },
                };
                let op_chunk = match &operator.1 {
                    TokenKind::Plus => one(OpCode::Add),
                    TokenKind::Minus => one(OpCode::Subtract),
                    TokenKind::Slash => one(OpCode::Divide),
                    TokenKind::Star => one(OpCode::Multiply),
                    TokenKind::Less => one(OpCode::LessThan),
                    TokenKind::LessEqual => one(OpCode::Add),
                    TokenKind::Greater => one(OpCode::GreaterThan),
                    TokenKind::GreaterEqual => one(OpCode::Add),
                    TokenKind::EqualEqual => one(OpCode::Equal),
                    TokenKind::BangEqual => two(OpCode::Equal, OpCode::Negate),
                    _ => {
                        return bc_err(bad_token("in binary precedence: ", operator));
                    },
                };
                let res_chunk = join(left_val, right_val);
                Ok(join(res_chunk, op_chunk))
            },
            Expression::Unary { operator, right, .. } => {
                let right_val = match self.visit_expression(right) {
                    Ok(c) => c,
                    Err(e) => {
                        return Err(e);
                    },
                };
                match &operator.1 {
                    TokenKind::Minus => Ok(join(right_val, one(OpCode::Negate))),
                    _ => bc_err(bad_token("in unary precedence: ", operator)),
                }
            },
            Expression::Literal { literal, information: info } => match self.literal_code(literal, info.pi) {
                Ok(c) => Ok(c),
                Err(e) => bc_err(e),
            },
            Expression::Sequence { seq, information: sinfo } => {
                assert(*expr == (Expression::Sequence { seq: *seq, information: *sinfo }));
                proof {
                    assert((*expr)->seq == *seq);
                    assert(decreases_to!(*expr => *seq));
                    assert(decreases_to!(*seq => seq[0]));
                    lemma_weights_prefix(seq@, 0);
                    lemma_weights_prefix(seq@, 1);
                    assert(seq@.subrange(0, 0) =~= Seq::<Expression<TypeCkOutput>>::empty());
                }
                let mut acc = match self.visit_expression(&seq[0]) {
                    Ok(c) => c,
                    Err(e) => {
                        return Err(e);
                    },
                };
                let mut i: usize = 1;
                while i < seq.len()
                    invariant
                        1 <= i <= seq@.len(),
                        *expr == (Expression::Sequence { seq: *seq, information: *sinfo }),
                        sc == self.tables(),
                        fl == self.floats(),
                        forall|j: int|
                            0 <= j < seq@.len() ==> bc_total(sc, fl, #[trigger] seq@[j]) && bc_expr(
                                sc,
                                fl,
                                seq@[j],
                            ) is Ok,
                        20 * (1 + weights(seq@)) + 20 <= isize::MAX,
                        bc_seq(sc, fl, seq@.subrange(0, i as int)) == Ok::<ChunkView, BcError>(acc@),
                        in_pool(acc@),
                        acc@.pool.len() <= weights(seq@.subrange(0, i as int)),
                        code_size(acc@.ops) <= 20 * weights(seq@.subrange(0, i as int)),
                    decreases seq@.len() - i,
                {
                    proof {
                        assert((*expr)->seq == *seq);
                        assert(decreases_to!(*expr => *seq));
                        assert(decreases_to!(*seq => seq[i as int]));
                        lemma_weights_prefix(seq@, i as int);
                        lemma_weights_prefix(seq@, i + 1);
                        let t = seq@.subrange(0, i + 1);
                        assert(t.subrange(0, t.len() - 1) =~= seq@.subrange(0, i as int));
                        assert(t[t.len() - 1] == seq@[i as int]);
                    }
                    let c = match self.visit_expression(&seq[i]) {
                        Ok(c) => c,
                        Err(e) => {
                            return Err(e);
                        },
                    };
                    acc = join(acc, c);
                    i = i + 1;
                }
                assert(seq@.subrange(0, seq@.len() as int) =~= seq@);
                Ok(acc)
            },
            Expression::Assignment { name, value, information } => {
                let st = ThetaConstant::Str(name.id().clone());
                let set_chunk = match self.visit_expression(value) {
                    Ok(c) => c,
                    Err(e) => {
                        return Err(e);
                    },
                };
                let sd = information.pi.scope_depth;
                let chunk = match self.scopes.get_symbol_data(information.pi.current_symbol_table, name, sd) {
                    Some(SymbolData::LocalVariable { slot, .. }) => one_with(OpCode::DefineLocal { offset: slot }, st),
                    _ => one_with(OpCode::DefineGlobal { offset: 0 }, st),
                };
                Ok(join(set_chunk, chunk))
            },
            Expression::If { check_expression, body, else_body, .. } => {
                let check_block = match self.visit_expression(check_expression) {
                    Ok(c) => c,
                    Err(e) => {
                        return Err(e);
                    },
                };
                let body_block = match self.visit_expression(body) {
                    Ok(c) => c,
                    Err(e) => {
                        return Err(e);
                    },
                };
                let else_block = match else_body {
                    Some(else_clause) => match self.visit_expression(else_clause) {
                        Ok(c) => Some(c),
                        Err(e) => {
                            return Err(e);
                        },
                    },
                    None => None,
                };
                let jump_size: isize = body_block.instruction_size() as isize + 2;
                let jump_chunk = if jump_size + 2 > 127 {
                    two(OpCode::JumpFarIfFalse { offset: jump_size + 2 + 8 }, OpCode::Pop)
                } else {
                    two(OpCode::JumpLocalIfFalse { offset: (jump_size + 3) as i8 }, OpCode::Pop)
                };
                let combined_block = join(check_block, jump_chunk);
                let combined_block = join(combined_block, body_block);
                match else_block {
                    Some(block) => {
                        let js: isize = block.instruction_size() as isize;
                        let jump_chunk = if js + 2 > 127 {
                            two(OpCode::JumpFar { offset: js + 2 + 8 }, OpCode::Pop)
                        } else {
                            two(OpCode::JumpLocal { offset: (js + 3) as i8 }, OpCode::Pop)
                        };
                        let combined_block = join(combined_block, jump_chunk);
                        Ok(join(combined_block, block))
                    },
                    None => {
                        let jump_chunk = two(OpCode::JumpLocal { offset: 3 }, OpCode::Pop);
                        Ok(join(combined_block, jump_chunk))
                    },
                }
            },
            Expression::BlockExpression { statements, information: binfo } => {
                assert(*expr == (Expression::BlockExpression { statements: *statements, information: *binfo }));
                let mut block_chunk = Chunk::new();
                let mut i: usize = 0;
                proof {
                    lemma_stmt_weights_prefix(statements@, 0);
                    assert(statements@.subrange(0, 0) =~= Seq::<Statement<TypeCkOutput>>::empty());
                }
                while i < statements.len()
                    invariant
                        i <= statements@.len(),
                        *expr == (Expression::BlockExpression { statements: *statements, information: *binfo }),
                        sc == self.tables(),
                        fl == self.floats(),
                        bc_total(sc, fl, *expr),
                        20 * (1 + stmt_weights(statements@)) + 20 <= isize::MAX,
                        bc_stmts(sc, fl, statements@.subrange(0, i as int)) == Ok::<ChunkView, BcError>(block_chunk@),
                        in_pool(block_chunk@),
                        block_chunk@.pool.len() <= stmt_weights(statements@.subrange(0, i as int)),
                        code_size(block_chunk@.ops) <= 20 * stmt_weights(statements@.subrange(0, i as int)),
                    decreases statements@.len() - i,
                {
                    proof {
                        assert((*expr)->statements == *statements);
                        assert(decreases_to!(*expr => *statements));
                        assert(decreases_to!(*statements => statements[i as int]));
                        lemma_stmt_weights_prefix(statements@, i as int);
                        lemma_stmt_weights_prefix(statements@, i + 1);
                        let t = statements@.subrange(0, i + 1);
                        assert(t.subrange(0, t.len() - 1) =~= statements@.subrange(0, i as int));
                        assert(t[t.len() - 1] == statements@[i as int]);
                    }
                    let c = match self.visit_statement(&statements[i]) {
                        Ok(c) => c,
                        Err(e) => {
                            proof {
                                lemma_bc_stmts_prefix(sc, fl, statements@, i + 1);
                            }
                            return Err(e);
                        },
                    };
                    block_chunk = join(block_chunk, c);
                    i = i + 1;
                }
                assert(statements@.subrange(0, statements@.len() as int) =~= statements@);
                Ok(block_chunk)
            },
            Expression::LoopExpression { predicate, body, .. } => {
                let body_chunk = match self.visit_expression(body) {
                    Ok(c) => c,
                    Err(e) => {
                        return Err(e);
                    },
                };
                let enc_pred = match predicate {
                    Some(x) => match self.visit_expression(x) {
                        Ok(c) => c,
                        Err(e) => {
                            return Err(e);
                        },
                    },
                    None => Chunk::new(),
                };
                proof {
                    lemma_jump_chunks(0, false);
                }
                let jump_to_end_offset: usize = body_chunk.instruction_size() + enc_pred.instruction_size() + 5;
                proof {
                    lemma_jump_chunks(jump_to_end_offset as nat, false);
                }
                let jump_to_end_chunk = match predicate {
                    Some(_) => build_conditional_jump(jump_to_end_offset, false),
                    None => Chunk::new(),
                };
                let loop_head = join(join(enc_pred, jump_to_end_chunk), body_chunk);
                let head_size = loop_head.instruction_size();
                proof {
                    lemma_jump_chunks(head_size as nat, true);
                }
                let jump_to_beginning_chunk = unconditional_far_jump(head_size, true);
                Ok(join(loop_head, jump_to_beginning_chunk))
            },
        }
    }

    /// Generates the code of a statement.
    pub fn visit_statement(&self, stmt: &Statement<TypeCkOutput>) -> (r: Result<Chunk, TransformError>)
        requires
            stmt_bc_total(self.tables(), self.floats(), *stmt),
            20 * stmt_weight(*stmt) + 20 <= isize::MAX,
        ensures
            generated_stmt(self.tables(), self.floats(), *stmt, r),
        decreases stmt,
    {
        match stmt {
            Statement::ExpressionStatement { expression, .. } => {
                let expr_chunk = match self.visit_expression(expression) {
                    Ok(c) => c,
                    Err(e) => {
                        return Err(e);
                    },
                };
                match expression.information().ty {
                    TypeInformation::Unit => Ok(expr_chunk),
                    _ => Ok(join(expr_chunk, one(OpCode::Pop))),
                }
            },
            Statement::PrintStatement { expression, .. } => {
                let print_chunk = one(OpCode::DebugPrint);
                let expr_chunk = match self.visit_expression(expression) {
                    Ok(c) => c,
                    Err(e) => {
                        return Err(e);
                    },
                };
                Ok(join(expr_chunk, print_chunk))
            },
            Statement::VarStatement { ident, init, information: info } => {
                if info.pi.scope_depth == 0 {
                    let hv = ThetaConstant::Str(ident.id().clone());
                    let init_chunk = match self.visit_expression(init) {
                        Ok(c) => c,
                        Err(e) => {
                            return Err(e);
                        },
                    };
                    Ok(join(init_chunk, one_with(OpCode::DefineGlobal { offset: 0 }, hv)))
                } else {
                    let init_chunk = match self.visit_expression(init) {
                        Ok(c) => c,
                        Err(e) => {
                            return Err(e);
                        },
                    };
                    match self.scopes.get_symbol_data(info.pi.current_symbol_table, ident, info.pi.scope_depth) {
                        Some(SymbolData::LocalVariable { slot, .. }) => Ok(
                            join(init_chunk, one(OpCode::DefineLocal { offset: slot })),
                        ),
                        Some(_) => bc_err(ToByteCodeError::InvalidLocal(ident.id().clone())),
                        None => bc_err(ToByteCodeError::NoIdentFound(ident.id().clone())),
                    }
                }
            },
        }
    }
}


/// `n` pop instructions.
pub open spec fn pops(n: nat) -> Seq<OpCode> {
    Seq::new(n, |i: int| OpCode::Pop)
}

/// Whether generating code for the tree runs to a result.
pub open spec fn tree_bc_total(sc: Seq<TableView>, fl: Seq<(String, u64)>, t: AbstractTree<TypeCkOutput>) -> bool {
    match t.view_inner() {
        InnerAbstractTree::Expression((e, _)) => bc_total(sc, fl, e) && 20 * weight(e) + 20 <= isize::MAX,
        InnerAbstractTree::Statement((st, _)) => stmt_bc_total(sc, fl, st) && 20 * stmt_weight(st) + 20 <= isize::MAX,
    }
}

/// The code of a tree: room for the locals of its frame, its code, and a pop
/// for each local.
pub open spec fn bc_tree(
    sc: Seq<TableView>,
    frames: Seq<crate::ast::symbol::FrameView>,
    fl: Seq<(String, u64)>,
    t: AbstractTree<TypeCkOutput>,
) -> Result<ChunkView, BcError> {
    let n = frames[t.info().pi.frame_data as int].locals;
    let pre = if n > 0 {
        cv(seq![OpCode::Push { size: n as usize }], seq![])
    } else {
        empty_chunk()
    };
    let body = match t.view_inner() {
        InnerAbstractTree::Expression((e, _)) => bc_expr(sc, fl, e),
        InnerAbstractTree::Statement((st, _)) => bc_stmt(sc, fl, st),
    };
    match body {
        Err(x) => Err(x),
        Ok(b) => Ok(merged(merged(pre, b), cv(pops(n), seq![]))),
    }
}

/// Whether `f` is the compiled form of `func`, whose code is `code`.
pub open spec fn compiled_function(func: Function<TypeCkOutput>, f: ThetaFunction, code: ChunkView) -> bool {
    &&& f.chunk@ == code
    &&& f.name@ == func.name@
    &&& f.return_ty == func.return_ty
    &&& f.args@.len() == func.args@.len()
    &&& forall|i: int| 0 <= i < func.args@.len() ==> (#[trigger] f.args@[i]).ty == func.args@[i].ty
}

/// The argument types of a function, as compiled arguments.
fn compile_args(args: &Vec<FunctionArg>) -> (r: Vec<ThetaFuncArg>)
    ensures
        r@.len() == args@.len(),
        forall|i: int| 0 <= i < args@.len() ==> (#[trigger] r@[i]).ty == args@[i].ty,
{
    let mut out: Vec<ThetaFuncArg> = Vec::new();
    let mut i: usize = 0;
    while i < args.len()
        invariant
            i <= args@.len(),
            out@.len() == i,
            forall|j: int| 0 <= j < i ==> (#[trigger] out@[j]).ty == args@[j].ty,
        decreases args@.len() - i,
    {
        out.push(ThetaFuncArg { ty: args[i].ty.duplicate() });
        i = i + 1;
    }
    out
}

impl<'a> ToByteCode<'a> {
    /// Generates the code of a tree, with room for the locals of its frame.
    pub fn transform_tree(&self, tree: &AbstractTree<TypeCkOutput>) -> (r: Result<Chunk, TransformError>)
        requires
            tree.info().pi.frame_data < self.frames().len(),
            tree_bc_total(self.tables(), self.floats(), *tree),
        ensures
            match r {
                Ok(c) => bc_tree(self.tables(), self.frames(), self.floats(), *tree) == Ok::<ChunkView, BcError>(c@),
                Err(TransformError::ToByteCodeError(x)) => bc_tree(self.tables(), self.frames(), self.floats(), *tree)
                    == Err::<ChunkView, BcError>(x@),
                Err(_) => false,
            },
    {
        let local_size = self.scopes.frame(tree.information().pi.frame_data).total_locals();
        proof {
            lemma_jump_chunks(0, false);
            lemma_small_sizes(OpCode::Push { size: local_size }, OpCode::Pop);
        }
        let mut block_chunk = if local_size > 0 {
            one(OpCode::Push { size: local_size })
        } else {
            Chunk::new()
        };
        let body = match tree.inner() {
            InnerAbstractTree::Expression((e, _)) => self.visit_expression(e),
            InnerAbstractTree::Statement((st, _)) => self.visit_statement(st),
        };
        let body = match body {
            Ok(c) => c,
            Err(e) => {
                return Err(e);
            },
        };
        block_chunk = join(block_chunk, body);
        let mut pop_ops: Vec<OpCode> = Vec::new();
        let mut i: usize = 0;
        while i < local_size
            invariant
                i <= local_size,
                pop_ops@ == pops(i as nat),
            decreases local_size - i,
        {
            pop_ops.push(OpCode::Pop);
            i = i + 1;
            assert(pop_ops@ =~= pops(i as nat));
        }
        let pop_block = Chunk::from_parts(pop_ops, Vec::new());
        assert(in_pool(pop_block@));
        Ok(join(block_chunk, pop_block))
    }

    /// Compiles a function: its body, name, argument types and return type.
    pub fn visit_function(&self, func: &Function<TypeCkOutput>) -> (r: Result<ThetaFunction, TransformError>)
        requires
            func.chunk.info().pi.frame_data < self.frames().len(),
            tree_bc_total(self.tables(), self.floats(), func.chunk),
        ensures
            match r {
                Ok(f) => exists|c: ChunkView|
                    bc_tree(self.tables(), self.frames(), self.floats(), func.chunk) == Ok::<ChunkView, BcError>(c)
                        && compiled_function(*func, f, c),
                Err(TransformError::ToByteCodeError(x)) => bc_tree(
                    self.tables(),
                    self.frames(),
                    self.floats(),
                    func.chunk,
                ) == Err::<ChunkView, BcError>(x@),
                Err(_) => false,
            },
    {
        let internal_ck = match self.transform_tree(&func.chunk) {
            Ok(c) => c,
            Err(e) => {
                return Err(e);
            },
        };
        let internal_args = compile_args(&func.args);
        let f = ThetaFunction {
            args: internal_args,
            chunk: internal_ck,
            name: ThetaString::new(func.name.id().clone()),
            return_ty: func.return_ty.duplicate(),
        };
        assert(compiled_function(*func, f, f.chunk@));
        Ok(f)
    }

    /// Compiles an item.
    pub fn transform_item(&self, item: &Item<TypeCkOutput>) -> (r: Result<ThetaFunction, TransformError>)
        requires
            match *item {
                Item::Function(func) => func.chunk.info().pi.frame_data < self.frames().len() && tree_bc_total(
                    self.tables(),
                    self.floats(),
                    func.chunk,
                ),
            },
        ensures
            match (*item, r) {
                (Item::Function(func), Ok(f)) => exists|c: ChunkView|
                    bc_tree(self.tables(), self.frames(), self.floats(), func.chunk) == Ok::<ChunkView, BcError>(c)
                        && compiled_function(func, f, c),
                (Item::Function(func), Err(TransformError::ToByteCodeError(x))) => bc_tree(
                    self.tables(),
                    self.frames(),
                    self.floats(),
                    func.chunk,
                ) == Err::<ChunkView, BcError>(x@),
                _ => false,
            },
    {
        match item {
            Item::Function(func) => self.visit_function(func),
        }
    }
}

} // verus!

verus! {

/// Whether generating code for each statement of `s` whose earlier statements
/// generate code runs to a result.
pub open spec fn block_total(sc: Seq<TableView>, fl: Seq<(String, u64)>, s: Seq<Statement<TypeCkOutput>>) -> bool {
    forall|i: int| 0 <= i < s.len() && bc_stmts(sc, fl, s.subrange(0, i)) is Ok ==> stmt_bc_total(sc, fl, #[trigger] s[i])
}

/// The code of the first `i + 1` statements is generated where that of the
/// first `i` is and that of statement `i` is.
proof fn lemma_bc_stmts_step(sc: Seq<TableView>, fl: Seq<(String, u64)>, s: Seq<Statement<TypeCkOutput>>, i: int)
    requires
        0 <= i < s.len(),
    ensures
        bc_stmts(sc, fl, s.subrange(0, i + 1)) is Ok <==> (bc_stmts(sc, fl, s.subrange(0, i)) is Ok && bc_stmt(
            sc,
            fl,
            s[i],
        ) is Ok),
{
    let t = s.subrange(0, i + 1);
    assert(t.subrange(0, t.len() - 1) =~= s.subrange(0, i));
    assert(t[t.len() - 1] == s[i]);
}

/// The node count of `e`, where it is at most `cap`.
pub fn weight_within(e: &Expression<TypeCkOutput>, cap: u64) -> (r: Option<u64>)
    requires
        1 <= cap <= 0x4000_0000_0000_0000,
    ensures
        r is Some <==> weight(*e) <= cap,
        r is Some ==> r->0 == weight(*e),
    decreases e,
{
    match e {
        Expression::Binary { left, right, .. } => {
            assert(weight(*e) == 1 + weight(**left) + weight(**right));
            let a = match weight_within(left, cap) {
                Some(a) => a,
                None => {
                    return None;
                },
            };
            let b = match weight_within(right, cap) {
                Some(b) => b,
                None => {
                    return None;
                },
            };
            if 1 + a + b <= cap { Some(1 + a + b) } else { None }
        },
        Expression::Unary { right, .. } => match weight_within(right, cap) {
            Some(a) => if 1 + a <= cap { Some(1 + a) } else { None },
            None => None,
        },
        Expression::Literal { .. } => Some(1),
        Expression::Sequence { seq, information: sinfo } => {
            let mut total: u64 = 1;
            let mut i: usize = 0;
            assert(seq@.subrange(0, 0) =~= Seq::<Expression<TypeCkOutput>>::empty());
            while i < seq.len()
                invariant
                    i <= seq@.len(),
                    *e == (Expression::Sequence { seq: *seq, information: *sinfo }),
                    1 <= cap <= 0x4000_0000_0000_0000,
                    total == 1 + weights(seq@.subrange(0, i as int)),
                    total <= cap,
                decreases seq@.len() - i,
            {
                proof {
                    assert((*e)->seq == *seq);
                    assert(decreases_to!(*e => *seq));
                    assert(decreases_to!(*seq => seq[i as int]));
                    lemma_weights_prefix(seq@, i as int);
                    lemma_weights_prefix(seq@, i + 1);
                }
                let w = match weight_within(&seq[i], cap) {
                    Some(w) => w,
                    None => {
                        proof {
                            lemma_weights_prefix(seq@, i + 1);
                        }
                        return None;
                    },
                };
                total = total + w;
                i = i + 1;
                if total > cap {
                    proof {
                        lemma_weights_prefix(seq@, i as int);
                    }
                    return None;
                }
            }
            assert(seq@.subrange(0, seq@.len() as int) =~= seq@);
            Some(total)
        },
        Expression::Assignment { value, .. } => match weight_within(value, cap) {
            Some(a) => if 1 + a <= cap { Some(1 + a) } else { None },
            None => None,
        },
        Expression::If { check_expression, body, else_body, .. } => {
            let a = match weight_within(check_expression, cap) {
                Some(a) => a,
                None => {
                    return None;
                },
            };
            let b = match weight_within(body, cap) {
                Some(b) => b,
                None => {
                    return None;
                },
            };
            let c = match else_body {
                Some(x) => match weight_within(x, cap) {
                    Some(c) => c,
                    None => {
                        return None;
                    },
                },
                None => 0,
            };
            if 1 + a + b + c <= cap { Some(1 + a + b + c) } else { None }
        },
        Expression::BlockExpression { statements, information: binfo } => {
            let mut total: u64 = 1;
            let mut i: usize = 0;
            assert(statements@.subrange(0, 0) =~= Seq::<Statement<TypeCkOutput>>::empty());
            while i < statements.len()
                invariant
                    i <= statements@.len(),
                    *e == (Expression::BlockExpression { statements: *statements, information: *binfo }),
                    1 <= cap <= 0x4000_0000_0000_0000,
                    total == 1 + stmt_weights(statements@.subrange(0, i as int)),
                    total <= cap,
                decreases statements@.len() - i,
            {
                proof {
                    assert((*e)->statements == *statements);
                    assert(decreases_to!(*e => *statements));
                    assert(decreases_to!(*statements => statements[i as int]));
                    lemma_stmt_weights_prefix(statements@, i as int);
                    lemma_stmt_weights_prefix(statements@, i + 1);
                }
                let w = match stmt_weight_within(&statements[i], cap) {
                    Some(w) => w,
                    None => {
                        return None;
                    },
                };
                total = total + w;
                i = i + 1;
                if total > cap {
                    proof {
                        lemma_stmt_weights_prefix(statements@, i as int);
                    }
                    return None;
                }
            }
            assert(statements@.subrange(0, statements@.len() as int) =~= statements@);
            Some(total)
        },
        Expression::LoopExpression { predicate, body, .. } => {
            let b = match weight_within(body, cap) {
                Some(b) => b,
                None => {
                    return None;
                },
            };
            let a = match predicate {
                Some(x) => match weight_within(x, cap) {
                    Some(a) => a,
                    None => {
                        return None;
                    },
                },
                None => 0,
            };
            if 1 + a + b <= cap { Some(1 + a + b) } else { None }
        },
    }
}

/// The node count of `s`, where it is at most `cap`.
pub fn stmt_weight_within(s: &Statement<TypeCkOutput>, cap: u64) -> (r: Option<u64>)
    requires
        1 <= cap <= 0x4000_0000_0000_0000,
    ensures
        r is Some <==> stmt_weight(*s) <= cap,
        r is Some ==> r->0 == stmt_weight(*s),
    decreases s,
{
    let inner = match s {
        Statement::ExpressionStatement { expression, .. } => weight_within(expression, cap),
        Statement::PrintStatement { expression, .. } => weight_within(expression, cap),
        Statement::VarStatement { init, .. } => weight_within(init, cap),
    };
    match inner {
        Some(a) => if 1 + a <= cap { Some(1 + a) } else { None },
        None => None,
    }
}

impl<'a> ToByteCode<'a> {
    /// Whether generating code for `expr` runs to a result, as `bc_total` says.
    #[verifier::rlimit(100)]
    #[verifier::spinoff_prover]
    pub fn compiles(&self, expr: &Expression<TypeCkOutput>) -> (r: bool)
        requires
            20 * weight(*expr) + 20 <= isize::MAX,
        ensures
            r == bc_total(self.tables(), self.floats(), *expr),
        decreases expr,
    {
        let ghost sc = self.tables();
        let ghost fl = self.floats();
        match expr {
            Expression::Binary { left, right, .. } => {
                if !self.compiles(left) {
                    return false;
                }
                match self.visit_expression(left) {
                    Ok(_) => self.compiles(right),
                    Err(_) => true,
                }
            },
            Expression::Unary { right, .. } => self.compiles(right),
            Expression::Literal { .. } => true,
            Expression::Sequence { seq, information: sinfo } => {
                if seq.len() == 0 {
                    return false;
                }
                let mut i: usize = 0;
                while i < seq.len()
                    invariant
                        i <= seq@.len(),
                        *expr == (Expression::Sequence { seq: *seq, information: *sinfo }),
                        sc == self.tables(),
                        fl == self.floats(),
                        20 * (1 + weights(seq@)) + 20 <= isize::MAX,
                        forall|j: int| 0 <= j < i ==> bc_total(sc, fl, #[trigger] seq@[j]) && bc_expr(sc, fl, seq@[j]) is Ok,
                    decreases seq@.len() - i,
                {
                    proof {
                        assert((*expr)->seq == *seq);
                        assert(decreases_to!(*expr => *seq));
                        assert(decreases_to!(*seq => seq[i as int]));
                        lemma_weights_prefix(seq@, i as int);
                        lemma_weights_prefix(seq@, i + 1);
                    }
                    if !self.compiles(&seq[i]) {
                        return false;
                    }
                    if self.visit_expression(&seq[i]).is_err() {
                        return false;
                    }
                    i = i + 1;
                }
                true
            },
            Expression::Assignment { name, value, information } => {
                if !self.compiles(value) {
                    return false;
                }
                if self.visit_expression(value).is_err() {
                    return true;
                }
                match self.scopes.get_symbol_data(information.pi.current_symbol_table, name, information.pi.scope_depth) {
                    Some(SymbolData::GlobalVariable { .. }) => true,
                    Some(SymbolData::LocalVariable { .. }) => true,
                    _ => false,
                }
            },
            Expression::If { check_expression, body, else_body, .. } => {
                if !self.compiles(check_expression) {
                    return false;
                }
                if self.visit_expression(check_expression).is_err() {
                    return true;
                }
                if !self.compiles(body) {
                    return false;
                }
                if self.visit_expression(body).is_err() {
                    return true;
                }
                match else_body {
                    Some(x) => self.compiles(x),
                    None => true,
                }
            },
            Expression::BlockExpression { statements, information: binfo } => {
                proof {
                    assert(*expr == (Expression::BlockExpression { statements: *statements, information: *binfo }));
                    assert((*expr)->statements == *statements);
                    assert(decreases_to!(*expr => *statements));
                }
                self.block_compiles(statements)
            },
            Expression::LoopExpression { predicate, body, .. } => {
                if !self.compiles(body) {
                    return false;
                }
                if self.visit_expression(body).is_err() {
                    return true;
                }
                match predicate {
                    Some(x) => self.compiles(x),
                    None => true,
                }
            },
        }
    }

    /// Whether generating code for each statement of a block whose earlier
    /// statements generate code runs to a result, as `block_total` says.
    fn block_compiles(&self, statements: &Vec<Statement<TypeCkOutput>>) -> (r: bool)
        requires
            20 * (1 + stmt_weights(statements@)) + 20 <= isize::MAX,
        ensures
            r == block_total(self.tables(), self.floats(), statements@),
        decreases statements,
    {
        let ghost sc = self.tables();
        let ghost fl = self.floats();
        let mut i: usize = 0;
        let mut prefix_ok = true;
        assert(statements@.subrange(0, 0) =~= Seq::<Statement<TypeCkOutput>>::empty());
        while i < statements.len()
            invariant
                i <= statements@.len(),
                sc == self.tables(),
                fl == self.floats(),
                20 * (1 + stmt_weights(statements@)) + 20 <= isize::MAX,
                prefix_ok == bc_stmts(sc, fl, statements@.subrange(0, i as int)) is Ok,
                forall|j: int|
                    0 <= j < i && bc_stmts(sc, fl, statements@.subrange(0, j)) is Ok ==> stmt_bc_total(
                        sc,
                        fl,
                        #[trigger] statements@[j],
                    ),
            decreases statements@.len() - i,
        {
            proof {
                assert(decreases_to!(*statements => statements[i as int]));
                lemma_stmt_weights_prefix(statements@, i as int);
                lemma_stmt_weights_prefix(statements@, i + 1);
                lemma_bc_stmts_step(sc, fl, statements@, i as int);
            }
            if prefix_ok {
                if !self.stmt_compiles(&statements[i]) {
                    return false;
                }
                prefix_ok = self.visit_statement(&statements[i]).is_ok();
            }
            i = i + 1;
        }
        true
    }

    /// Whether generating code for `stmt` runs to a result, as `stmt_bc_total` says.
    pub fn stmt_compiles(&self, stmt: &Statement<TypeCkOutput>) -> (r: bool)
        requires
            20 * stmt_weight(*stmt) + 20 <= isize::MAX,
        ensures
            r == stmt_bc_total(self.tables(), self.floats(), *stmt),
        decreases stmt,
    {
        match stmt {
            Statement::ExpressionStatement { expression, .. } => self.compiles(expression),
            Statement::PrintStatement { expression, .. } => self.compiles(expression),
            Statement::VarStatement { init, .. } => self.compiles(init),
        }
    }

    /// Whether generating code for the tree runs to a result, as `tree_bc_total`
    /// says; `transform_tree` may be called on it where this holds.
    pub fn tree_compiles(&self, tree: &AbstractTree<TypeCkOutput>) -> (r: bool)
        ensures
            r == tree_bc_total(self.tables(), self.floats(), *tree),
    {
        let m: u64 = isize::MAX as u64;
        let cap: u64 = (m - 20) / 20;
        assert(20 * cap + 20 <= m && 20 * (cap + 1) + 20 > m) by (nonlinear_arith)
            requires
                cap == (m - 20) / 20,
                m >= 20,
        ;
        match tree.inner() {
            InnerAbstractTree::Expression((e, _)) => match weight_within(e, cap) {
                Some(_) => self.compiles(e),
                None => false,
            },
            InnerAbstractTree::Statement((st, _)) => match stmt_weight_within(st, cap) {
                Some(_) => self.stmt_compiles(st),
                None => false,
            },
        }
    }
}

} // verus!

verus! {

/// How a generation error is written in messages.
pub open spec fn bc_error_text(e: BcError) -> Seq<char> {
    match e {
        BcError::InvalidToken(s) => "Invalid Token: "@ + s,
        BcError::InvalidLocal(s) => "Invalid Local with Identifier: "@ + s,
        BcError::NoIdentFound(s) => "No identifier found with name "@ + s,
    }
}

impl ToByteCodeError {
    /// The error as messages write it.
    pub fn describe(&self) -> (r: String)
        ensures
            r@ == bc_error_text(self@),
    {
        let mut out = String::new();
        match self {
            ToByteCodeError::InvalidToken(s) => {
                push_str(&mut out, "Invalid Token: ");
                push_str(&mut out, s.as_str());
            },
            ToByteCodeError::InvalidLocal(s) => {
                push_str(&mut out, "Invalid Local with Identifier: ");
                push_str(&mut out, s.as_str());
            },
            ToByteCodeError::NoIdentFound(s) => {
                push_str(&mut out, "No identifier found with name ");
                push_str(&mut out, s.as_str());
            },
        }
        assert(out@ =~= bc_error_text(self@));
        out
    }
}

} // verus!
