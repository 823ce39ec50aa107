use vstd::prelude::*;
use crate::bytecode::{Symbol, symbol_from};
use crate::ast::symbol::{Scopes, TableView, SymbolData, ExtSymbolTable, resolve_at, data_ty};
use crate::ast::tree::{
    AbstractTree, InnerAbstractTree, Expression, Statement, Function, FunctionArg, Item, expr_info, stmt_info, ev, sv, tv,
    strip_ev, strip_sv, strip_tv,
};
use crate::ast::transformers::TransformError;
use crate::lexer::token::{Token, TokenKind, TokenType, token_text};
use crate::text::push_str;
use crate::parser::ParseInfo;

verus! {

broadcast use vstd::std_specs::vec::axiom_vec_index_decreases;

/// The type of a value or expression.
#[derive(Debug)]
pub enum TypeInformation {
    Int,
    String,
    Float,
    Boolean,
    NonLiteral(Symbol),
    Unit,
}

/// Whether two types are the same type (named types by their names).
pub open spec fn same_type(a: TypeInformation, b: TypeInformation) -> bool {
    match (a, b) {
        (TypeInformation::Int, TypeInformation::Int) => true,
        (TypeInformation::String, TypeInformation::String) => true,
        (TypeInformation::Float, TypeInformation::Float) => true,
        (TypeInformation::Boolean, TypeInformation::Boolean) => true,
        (TypeInformation::Unit, TypeInformation::Unit) => true,
        (TypeInformation::NonLiteral(x), TypeInformation::NonLiteral(y)) => x@ == y@,
        _ => false,
    }
}

impl TypeInformation {
    /// Whether this type and `other` are the same type.
    pub fn same(&self, other: &TypeInformation) -> (r: bool)
        ensures
            r == same_type(*self, *other),
    {
        match (self, other) {
            (TypeInformation::Int, TypeInformation::Int) => true,
            (TypeInformation::String, TypeInformation::String) => true,
            (TypeInformation::Float, TypeInformation::Float) => true,
            (TypeInformation::Boolean, TypeInformation::Boolean) => true,
            (TypeInformation::Unit, TypeInformation::Unit) => true,
            (TypeInformation::NonLiteral(x), TypeInformation::NonLiteral(y)) => x.same(y),
            _ => false,
        }
    }

    /// A copy of the type.
    pub fn duplicate(&self) -> (r: TypeInformation)
        ensures
            r == *self,
    {
        match self {
            TypeInformation::Int => TypeInformation::Int,
            TypeInformation::String => TypeInformation::String,
            TypeInformation::Float => TypeInformation::Float,
            TypeInformation::Boolean => TypeInformation::Boolean,
            TypeInformation::NonLiteral(s) => TypeInformation::NonLiteral(s.duplicate()),
            TypeInformation::Unit => TypeInformation::Unit,
        }
    }
}


/// What the type checker records at each node: its type, and what the parser recorded.
#[derive(Debug)]
pub struct TypeCkOutput {
    pub ty: TypeInformation,
    pub pi: ParseInfo,
}

impl TypeCkOutput {
    /// A copy of the output.
    pub fn duplicate(&self) -> (r: TypeCkOutput)
        ensures
            r == *self,
    {
        TypeCkOutput { ty: self.ty.duplicate(), pi: self.pi }
    }
}

/// Why type checking failed.
#[derive(Debug)]
pub enum TypeCkError {
    ExpressionBinaryTypeCkFail(TypeInformation, TypeInformation, Token),
    ExpressionUnaryTypeCkFail(TypeInformation, Token),
    TypeNotFound(Symbol),
    InvalidTypeInPosition(Symbol),
    InvalidLiteralInPosition(Token),
    IncorrectInitializer(Symbol),
    InvalidAssignment(TypeInformation, TypeInformation),
    InvalidIfExpressionCheck(TypeInformation),
    InvalidIfBranches(TypeInformation, TypeInformation),
    InvalidPredicate(TypeInformation),
    InvalidFunctionReturn(TypeInformation, TypeInformation),
}

/// The type of a binary operation on operands of types `l` and `r`, if it has one.
pub open spec fn binary_ty(l: TypeInformation, r: TypeInformation, op: TokenType) -> Option<TypeInformation> {
    let arith = op is Plus || op is Minus || op is Star || op is Slash;
    let order = op is Less || op is LessEqual || op is Greater || op is GreaterEqual;
    if op is EqualEqual || op is BangEqual {
        Some(TypeInformation::Boolean)
    } else if l is Int && r is Int && arith {
        Some(TypeInformation::Int)
    } else if l is String && r is String && op is Plus {
        Some(TypeInformation::String)
    } else if l is Float && r is Float && arith {
        Some(TypeInformation::Float)
    } else if ((l is Int && r is Int) || (l is String && r is String) || (l is Float && r is Float)) && order {
        Some(TypeInformation::Boolean)
    } else {
        None
    }
}

/// The arithmetic operators `+ - * /` keep a numeric type: on two operands of
/// type `Int`, or two of type `Float`, they give that type; on an `Int` and a
/// `Float` they give none. A comparison of two values of one type that can be
/// ordered (`Int`, `Float`, `String`) is a `Boolean`, and so is any equality
/// test; and the type of an operation does not depend on the order of its
/// operands.
pub proof fn lemma_binary_types(l: TypeInformation, r: TypeInformation, op: TokenType)
    ensures
        (op is Plus || op is Minus || op is Star || op is Slash) ==> {
            &&& binary_ty(TypeInformation::Int, TypeInformation::Int, op) == Some(TypeInformation::Int)
            &&& binary_ty(TypeInformation::Float, TypeInformation::Float, op) == Some(TypeInformation::Float)
            &&& binary_ty(TypeInformation::Int, TypeInformation::Float, op) is None
            &&& binary_ty(TypeInformation::Float, TypeInformation::Int, op) is None
        },
        (op is Less || op is LessEqual || op is Greater || op is GreaterEqual) && (l is Int || l is Float
            || l is String) && l == r ==> binary_ty(l, r, op) == Some(TypeInformation::Boolean),
        (op is EqualEqual || op is BangEqual) ==> binary_ty(l, r, op) == Some(TypeInformation::Boolean),
        binary_ty(l, r, op) == binary_ty(r, l, op),
{
}

/// Strings join with `+` into a string and take no other arithmetic; negation
/// keeps a numeric type, and `!` on a `Boolean` is a `Boolean`; a string takes
/// no unary operator.
pub proof fn lemma_string_and_unary_types(op: TokenType)
    ensures
        op is Plus ==> binary_ty(TypeInformation::String, TypeInformation::String, op) == Some(TypeInformation::String),
        (op is Minus || op is Star || op is Slash) ==> binary_ty(TypeInformation::String, TypeInformation::String, op) is None,
        op is Minus ==> unary_ty(TypeInformation::Int, op) == Some(TypeInformation::Int) && unary_ty(
            TypeInformation::Float,
            op,
        ) == Some(TypeInformation::Float),
        op is Bang ==> unary_ty(TypeInformation::Boolean, op) == Some(TypeInformation::Boolean),
        unary_ty(TypeInformation::String, op) is None,
{
}

/// A binary arithmetic expression whose operands both check to `Int`, or both
/// to `Float`, checks to that type; one whose operands check to different
/// numeric types is refused with the operand types and the operator.
pub proof fn lemma_arithmetic_checks(
    sc: Seq<TableView>,
    tbl: nat,
    left: Expression<ParseInfo>,
    operator: Token,
    right: Expression<ParseInfo>,
    information: ParseInfo,
)
    requires
        operator.1 is Plus || operator.1 is Minus || operator.1 is Star || operator.1 is Slash,
        tc_expr(sc, tbl, left) is Ok,
        tc_expr(sc, tbl, right) is Ok,
        tc_expr(sc, tbl, left)->Ok_0.ty is Int || tc_expr(sc, tbl, left)->Ok_0.ty is Float,
        tc_expr(sc, tbl, right)->Ok_0.ty is Int || tc_expr(sc, tbl, right)->Ok_0.ty is Float,
    ensures
        ({
            let e = Expression::Binary { left: Box::new(left), operator, right: Box::new(right), information };
            let lt = tc_expr(sc, tbl, left)->Ok_0.ty;
            let rt = tc_expr(sc, tbl, right)->Ok_0.ty;
            &&& lt == rt ==> tc_expr(sc, tbl, e) == Ok::<TypeCkOutput, TypeCkError>(
                TypeCkOutput { ty: lt, pi: information },
            )
            &&& lt != rt ==> tc_expr(sc, tbl, e) == Err::<TypeCkOutput, TypeCkError>(
                TypeCkError::ExpressionBinaryTypeCkFail(lt, rt, operator),
            )
        }),
{
    lemma_binary_types(tc_expr(sc, tbl, left)->Ok_0.ty, tc_expr(sc, tbl, right)->Ok_0.ty, operator.1);
}

/// The type of a unary operation on an operand of type `r`, if it has one.
pub open spec fn unary_ty(r: TypeInformation, op: TokenType) -> Option<TypeInformation> {
    if r is Int && (op is Minus || op is Bang) {
        Some(TypeInformation::Int)
    } else if r is Float && op is Minus {
        Some(TypeInformation::Float)
    } else if r is Boolean && op is Bang {
        Some(TypeInformation::Boolean)
    } else {
        None
    }
}

/// Whether every sequence expression in `e` has at least one element.
pub open spec fn seqs_nonempty(e: Expression<ParseInfo>) -> bool
    decreases e,
{
    match e {
        Expression::Binary { left, right, .. } => seqs_nonempty(*left) && seqs_nonempty(*right),
        Expression::Unary { right, .. } => seqs_nonempty(*right),
        Expression::Literal { .. } => true,
        Expression::Sequence { seq, .. } => seq@.len() > 0 && forall|i: int|
            0 <= i < seq@.len() ==> seqs_nonempty(#[trigger] seq@[i]),
        Expression::Assignment { value, .. } => seqs_nonempty(*value),
        Expression::If { check_expression, body, else_body, .. } => seqs_nonempty(*check_expression)
            && seqs_nonempty(*body) && match else_body {
            Some(x) => seqs_nonempty(*x),
            None => true,
        },
        Expression::BlockExpression { statements, .. } => forall|i: int|
            0 <= i < statements@.len() ==> stmt_seqs_nonempty(#[trigger] statements@[i]),
        Expression::LoopExpression { predicate, body, .. } => seqs_nonempty(*body) && match predicate {
            Some(x) => seqs_nonempty(*x),
            None => true,
        },
    }
}

/// Whether every sequence expression in `s` has at least one element.
pub open spec fn stmt_seqs_nonempty(s: Statement<ParseInfo>) -> bool
    decreases s,
{
    match s {
        Statement::ExpressionStatement { expression, .. } => seqs_nonempty(expression),
        Statement::PrintStatement { expression, .. } => seqs_nonempty(expression),
        Statement::VarStatement { init, .. } => seqs_nonempty(init),
    }
}

/// The first error among the expressions of `s`, checked in order, if any.
pub open spec fn tc_all(sc: Seq<TableView>, tbl: nat, s: Seq<Expression<ParseInfo>>) -> Result<(), TypeCkError>
    decreases s,
{
    if s.len() == 0 {
        Ok(())
    } else {
        match tc_all(sc, tbl, s.subrange(0, s.len() - 1)) {
            Err(e) => Err(e),
            Ok(_) => match tc_expr(sc, tbl, s[s.len() - 1]) {
                Err(e) => Err(e),
                Ok(_) => Ok(()),
            },
        }
    }
}

/// The first error among the statements of `s`, checked in order, if any.
pub open spec fn tc_stmts(sc: Seq<TableView>, tbl: nat, s: Seq<Statement<ParseInfo>>) -> Result<(), TypeCkError>
    decreases s,
{
    if s.len() == 0 {
        Ok(())
    } else {
        match tc_stmts(sc, tbl, s.subrange(0, s.len() - 1)) {
            Err(e) => Err(e),
            Ok(_) => match tc_stmt(sc, tbl, s[s.len() - 1]) {
                Err(e) => Err(e),
                Ok(_) => Ok(()),
            },
        }
    }
}

/// What the checker records at expression `e`, checked against table `tbl`
/// of `sc`, or the error it reports.
pub open spec fn tc_expr(sc: Seq<TableView>, tbl: nat, e: Expression<ParseInfo>) -> Result<TypeCkOutput, TypeCkError>
    decreases e,
{
    match e {
        Expression::Binary { left, operator, right, information } => {
            match (tc_expr(sc, tbl, *left), tc_expr(sc, tbl, *right)) {
                (Err(el), _) => Err(el),
                (Ok(_), Err(er)) => Err(er),
                (Ok(l), Ok(r)) => match binary_ty(l.ty, r.ty, operator.1) {
                    Some(ty) => Ok(TypeCkOutput { ty, pi: information }),
                    None => Err(TypeCkError::ExpressionBinaryTypeCkFail(l.ty, r.ty, operator)),
                },
            }
        },
        Expression::Unary { operator, right, information } => match tc_expr(sc, tbl, *right) {
            Err(e) => Err(e),
            Ok(r) => match unary_ty(r.ty, operator.1) {
                Some(ty) => Ok(TypeCkOutput { ty, pi: information }),
                None => Err(TypeCkError::ExpressionUnaryTypeCkFail(r.ty, operator)),
            },
        },
        Expression::Literal { literal, information } => match literal.1 {
            TokenKind::Str(_) => Ok(TypeCkOutput { ty: TypeInformation::String, pi: information }),
            TokenKind::Integer(_) => Ok(TypeCkOutput { ty: TypeInformation::Int, pi: information }),
            TokenKind::Float(_) => Ok(TypeCkOutput { ty: TypeInformation::Float, pi: information }),
            TokenKind::True => Ok(TypeCkOutput { ty: TypeInformation::Boolean, pi: information }),
            TokenKind::False => Ok(TypeCkOutput { ty: TypeInformation::Boolean, pi: information }),
            TokenKind::Identifier(id) => match resolve_at(sc, tbl, id@, information.scope_depth as nat) {
                Some(d) => Ok(TypeCkOutput { ty: data_ty(d), pi: information }),
                None => Err(TypeCkError::TypeNotFound(symbol_from(id))),
            },
            _ => Err(TypeCkError::InvalidLiteralInPosition(literal)),
        },
        Expression::Sequence { seq, information } => match tc_all(sc, tbl, seq@) {
            Err(e) => Err(e),
            Ok(_) => if seq@.len() > 0 {
                tc_expr(sc, tbl, seq@[seq@.len() - 1])
            } else {
                Ok(TypeCkOutput { ty: TypeInformation::Unit, pi: information })
            },
        },
        Expression::Assignment { name, value, information } => match resolve_at(
            sc,
            tbl,
            name@,
            information.scope_depth as nat,
        ) {
            None => Err(TypeCkError::TypeNotFound(name)),
            Some(d) => match tc_expr(sc, tbl, *value) {
                Err(e) => Err(e),
                Ok(v) => if same_type(data_ty(d), v.ty) {
                    Ok(TypeCkOutput { ty: data_ty(d), pi: information })
                } else {
                    Err(TypeCkError::InvalidAssignment(data_ty(d), v.ty))
                },
            },
        },
        Expression::If { check_expression, body, else_body, information } => match tc_expr(
            sc,
            tbl,
            *check_expression,
        ) {
            Err(e) => Err(e),
            Ok(c) => if !(c.ty is Boolean) {
                Err(TypeCkError::InvalidIfExpressionCheck(c.ty))
            } else {
                match else_body {
                    Some(eb) => match tc_expr(sc, tbl, *eb) {
                        Err(e) => Err(e),
                        Ok(el) => match tc_expr(sc, tbl, *body) {
                            Err(e) => Err(e),
                            Ok(b) => if same_type(b.ty, el.ty) {
                                Ok(TypeCkOutput { ty: b.ty, pi: information })
                            } else {
                                Err(TypeCkError::InvalidIfBranches(el.ty, b.ty))
                            },
                        },
                    },
                    None => match tc_expr(sc, tbl, *body) {
                        Err(e) => Err(e),
                        Ok(b) => Ok(TypeCkOutput { ty: b.ty, pi: information }),
                    },
                }
            },
        },
        Expression::BlockExpression { statements, information } => match tc_stmts(
            sc,
            information.current_symbol_table as nat,
            statements@,
        ) {
            Err(e) => Err(e),
            Ok(_) => Ok(TypeCkOutput { ty: TypeInformation::Unit, pi: information }),
        },
        Expression::LoopExpression { predicate, body, information } => {
            let p = match predicate {
                Some(pr) => match tc_expr(sc, tbl, *pr) {
                    Err(e) => Err(e),
                    Ok(pt) => if pt.ty is Boolean {
                        Ok(())
                    } else {
                        Err(TypeCkError::InvalidPredicate(pt.ty))
                    },
                },
                None => Ok(()),
            };
            match p {
                Err(e) => Err(e),
                Ok(_) => match tc_expr(sc, tbl, *body) {
                    Err(e) => Err(e),
                    Ok(b) => Ok(TypeCkOutput { ty: b.ty, pi: information }),
                },
            }
        },
    }
}

/// What the checker records at statement `s`, or the error it reports.
pub open spec fn tc_stmt(sc: Seq<TableView>, tbl: nat, s: Statement<ParseInfo>) -> Result<TypeCkOutput, TypeCkError>
    decreases s,
{
    match s {
        Statement::ExpressionStatement { expression, information } => match tc_expr(sc, tbl, expression) {
            Err(e) => Err(e),
            Ok(_) => Ok(TypeCkOutput { ty: TypeInformation::Unit, pi: information }),
        },
        Statement::PrintStatement { expression, information } => match tc_expr(sc, tbl, expression) {
            Err(e) => Err(e),
            Ok(_) => Ok(TypeCkOutput { ty: TypeInformation::Unit, pi: information }),
        },
        Statement::VarStatement { ident, init, information } => match tc_expr(sc, tbl, init) {
            Err(e) => Err(e),
            Ok(i) => match resolve_at(sc, tbl, ident@, information.scope_depth as nat) {
                None => Err(TypeCkError::TypeNotFound(ident)),
                Some(SymbolData::Type { .. }) => Err(TypeCkError::InvalidTypeInPosition(ident)),
                Some(d) => if same_type(data_ty(d), i.ty) {
                    Ok(TypeCkOutput { ty: TypeInformation::Unit, pi: information })
                } else {
                    Err(TypeCkError::IncorrectInitializer(ident))
                },
            },
        },
    }
}

/// Whether `out` is `inp` with each node annotated as the checker records it.
pub open spec fn typed_expr(
    sc: Seq<TableView>,
    tbl: nat,
    inp: Expression<ParseInfo>,
    out: Expression<TypeCkOutput>,
) -> bool
    decreases inp,
{
    &&& tc_expr(sc, tbl, inp) == Ok::<TypeCkOutput, TypeCkError>(expr_info(out))
    &&& match (inp, out) {
        (
            Expression::Binary { left, operator, right, .. },
            Expression::Binary { left: l2, operator: o2, right: r2, .. },
        ) => o2 == operator && typed_expr(sc, tbl, *left, *l2) && typed_expr(sc, tbl, *right, *r2),
        (Expression::Unary { operator, right, .. }, Expression::Unary { operator: o2, right: r2, .. }) => o2
            == operator && typed_expr(sc, tbl, *right, *r2),
        (Expression::Literal { literal, .. }, Expression::Literal { literal: l2, .. }) => l2 == literal,
        (Expression::Sequence { seq, .. }, Expression::Sequence { seq: s2, .. }) => s2@.len() == seq@.len()
            && forall|i: int| 0 <= i < seq@.len() ==> typed_expr(sc, tbl, #[trigger] seq@[i], s2@[i]),
        (Expression::Assignment { name, value, .. }, Expression::Assignment { name: n2, value: v2, .. }) => n2
            == name && typed_expr(sc, tbl, *value, *v2),
        (
            Expression::If { check_expression, body, else_body, .. },
            Expression::If { check_expression: c2, body: b2, else_body: e2, .. },
        ) => typed_expr(sc, tbl, *check_expression, *c2) && typed_expr(sc, tbl, *body, *b2) && match (
            else_body,
            e2,
        ) {
            (Some(x), Some(y)) => typed_expr(sc, tbl, *x, *y),
            (None, None) => true,
            _ => false,
        },
        (
            Expression::BlockExpression { statements, information },
            Expression::BlockExpression { statements: s2, .. },
        ) => s2@.len() == statements@.len() && forall|i: int|
            0 <= i < statements@.len() ==> typed_stmt(
                sc,
                information.current_symbol_table as nat,
                #[trigger] statements@[i],
                s2@[i],
            ),
        (
            Expression::LoopExpression { predicate, body, .. },
            Expression::LoopExpression { predicate: p2, body: b2, .. },
        ) => typed_expr(sc, tbl, *body, *b2) && match (predicate, p2) {
            (Some(x), Some(y)) => typed_expr(sc, tbl, *x, *y),
            (None, None) => true,
            _ => false,
        },
        _ => false,
    }
}

/// Whether `out` is `inp` with each node annotated as the checker records it.
pub open spec fn typed_stmt(sc: Seq<TableView>, tbl: nat, inp: Statement<ParseInfo>, out: Statement<TypeCkOutput>) -> bool
    decreases inp,
{
    &&& tc_stmt(sc, tbl, inp) == Ok::<TypeCkOutput, TypeCkError>(stmt_info(out))
    &&& match (inp, out) {
        (
            Statement::ExpressionStatement { expression, .. },
            Statement::ExpressionStatement { expression: e2, .. },
        ) => typed_expr(sc, tbl, expression, e2),
        (Statement::PrintStatement { expression, .. }, Statement::PrintStatement { expression: e2, .. }) => typed_expr(
            sc,
            tbl,
            expression,
            e2,
        ),
        (Statement::VarStatement { ident, init, .. }, Statement::VarStatement { ident: i2, init: n2, .. }) => i2
            == ident && typed_expr(sc, tbl, init, n2),
        _ => false,
    }
}

/// The outcome of checking an expression, as a function of the checker's result.
pub open spec fn checked_expr(
    sc: Seq<TableView>,
    tbl: nat,
    inp: Expression<ParseInfo>,
    r: Result<Expression<TypeCkOutput>, TransformError>,
) -> bool {
    match r {
        Ok(out) => typed_expr(sc, tbl, inp, out),
        Err(TransformError::TypeCkError(e)) => tc_expr(sc, tbl, inp) == Err::<TypeCkOutput, TypeCkError>(e),
        Err(_) => false,
    }
}

/// The outcome of checking a statement, as a function of the checker's result.
pub open spec fn checked_stmt(
    sc: Seq<TableView>,
    tbl: nat,
    inp: Statement<ParseInfo>,
    r: Result<Statement<TypeCkOutput>, TransformError>,
) -> bool {
    match r {
        Ok(out) => typed_stmt(sc, tbl, inp, out),
        Err(TransformError::TypeCkError(e)) => tc_stmt(sc, tbl, inp) == Err::<TypeCkOutput, TypeCkError>(e),
        Err(_) => false,
    }
}

/// The type checker, reading names in one symbol table of `scopes`.
pub struct TypeCk<'a> {
    scopes: &'a Scopes,
    symbol_table: ExtSymbolTable,
}

impl<'a> TypeCk<'a> {
    pub closed spec fn tables(&self) -> Seq<TableView> {
        self.scopes.tables()
    }

    pub closed spec fn table(&self) -> nat {
        self.symbol_table as nat
    }

    pub fn new(scopes: &'a Scopes, tbl: ExtSymbolTable) -> (r: TypeCk<'a>)
        ensures
            r.tables() == scopes.tables(),
            r.table() == tbl,
    {
        TypeCk { scopes, symbol_table: tbl }
    }
}


/// Once a prefix of `s` fails to check, the whole of `s` fails with that error.
pub proof fn lemma_tc_all_prefix(sc: Seq<TableView>, tbl: nat, s: Seq<Expression<ParseInfo>>, k: int)
    requires
        0 <= k <= s.len(),
        tc_all(sc, tbl, s.subrange(0, k)) is Err,
    ensures
        tc_all(sc, tbl, s) == tc_all(sc, tbl, s.subrange(0, k)),
    decreases s.len() - k,
{
    if k < s.len() {
        let t = s.subrange(0, k + 1);
        assert(t.subrange(0, t.len() - 1) =~= s.subrange(0, k));
        lemma_tc_all_prefix(sc, tbl, s, k + 1);
    } else {
        assert(s.subrange(0, k) =~= s);
    }
}

/// Once a prefix of `s` fails to check, the whole of `s` fails with that error.
pub proof fn lemma_tc_stmts_prefix(sc: Seq<TableView>, tbl: nat, s: Seq<Statement<ParseInfo>>, k: int)
    requires
        0 <= k <= s.len(),
        tc_stmts(sc, tbl, s.subrange(0, k)) is Err,
    ensures
        tc_stmts(sc, tbl, s) == tc_stmts(sc, tbl, s.subrange(0, k)),
    decreases s.len() - k,
{
    if k < s.len() {
        let t = s.subrange(0, k + 1);
        assert(t.subrange(0, t.len() - 1) =~= s.subrange(0, k));
        lemma_tc_stmts_prefix(sc, tbl, s, k + 1);
    } else {
        assert(s.subrange(0, k) =~= s);
    }
}

/// The type of a binary operation, as `binary_ty` gives it.
pub fn binary_type(l: &TypeInformation, r: &TypeInformation, op: &TokenType) -> (t: Option<TypeInformation>)
    ensures
        t == binary_ty(*l, *r, *op),
{
    let arith = match op {
        TokenKind::Plus | TokenKind::Minus | TokenKind::Star | TokenKind::Slash => true,
        _ => false,
    };
    let order = match op {
        TokenKind::Less | TokenKind::LessEqual | TokenKind::Greater | TokenKind::GreaterEqual => true,
        _ => false,
    };
    let plus = match op {
        TokenKind::Plus => true,
        _ => false,
    };
    match op {
        TokenKind::EqualEqual | TokenKind::BangEqual => return Some(TypeInformation::Boolean),
        _ => {},
    }
    match (l, r) {
        (TypeInformation::Int, TypeInformation::Int) => if arith {
            Some(TypeInformation::Int)
        } else if order {
            Some(TypeInformation::Boolean)
        } else {
            None
        },
        (TypeInformation::String, TypeInformation::String) => if plus {
            Some(TypeInformation::String)
        } else if order {
            Some(TypeInformation::Boolean)
        } else {
            None
        },
        (TypeInformation::Float, TypeInformation::Float) => if arith {
            Some(TypeInformation::Float)
        } else if order {
            Some(TypeInformation::Boolean)
        } else {
            None
        },
        _ => None,
    }
}

/// The type of a unary operation, as `unary_ty` gives it.
pub fn unary_type(r: &TypeInformation, op: &TokenType) -> (t: Option<TypeInformation>)
    ensures
        t == unary_ty(*r, *op),
{
    match (r, op) {
        (TypeInformation::Int, TokenKind::Minus) => Some(TypeInformation::Int),
        (TypeInformation::Int, TokenKind::Bang) => Some(TypeInformation::Int),
        (TypeInformation::Float, TokenKind::Minus) => Some(TypeInformation::Float),
        (TypeInformation::Boolean, TokenKind::Bang) => Some(TypeInformation::Boolean),
        _ => None,
    }
}

fn tc_err<A>(e: TypeCkError) -> (r: Result<A, TransformError>)
    ensures
        r == Err::<A, TransformError>(TransformError::TypeCkError(e)),
{
    Err(TransformError::TypeCkError(e))
}

impl<'a> TypeCk<'a> {
    /// Checks an expression and annotates each of its nodes with its type.
    pub fn visit_expression(&self, expr: &Expression<ParseInfo>) -> (r: Result<Expression<TypeCkOutput>, TransformError>)
        requires
            seqs_nonempty(*expr),
        ensures
            checked_expr(self.tables(), self.table(), *expr, r),
        decreases expr,
    {
        let ghost sc = self.tables();
        let ghost tbl = self.table();
        match expr {
            Expression::Binary { left, operator, right, information: info } => {
                let left_ty_res = self.visit_expression(left);
                let right_ty_res = self.visit_expression(right);
                let (left_ty, right_ty) = match (left_ty_res, right_ty_res) {
                    (Ok(l), Ok(r)) => (l, r),
                    (Ok(_), Err(e)) => {
                        return Err(e);
                    },
                    (Err(e), _) => {
                        return Err(e);
                    },
                };
                match binary_type(&left_ty.information().ty, &right_ty.information().ty, &operator.1) {
                    Some(ty) => Ok(
                        Expression::Binary {
                            left: Box::new(left_ty),
                            operator: operator.duplicate(),
                            right: Box::new(right_ty),
                            information: TypeCkOutput { ty, pi: *info },
                        },
                    ),
                    None => tc_err(
                        TypeCkError::ExpressionBinaryTypeCkFail(
                            left_ty.information().ty.duplicate(),
                            right_ty.information().ty.duplicate(),
                            operator.duplicate(),
                        ),
                    ),
                }
            },
            Expression::Unary { operator, right, information: info } => {
                let r_ty = match self.visit_expression(right) {
                    Ok(rty) => rty,
                    Err(e) => {
                        return Err(e);
                    },
                };
                match unary_type(&r_ty.information().ty, &operator.1) {
                    Some(ty) => Ok(
                        Expression::Unary {
                            operator: operator.duplicate(),
                            right: Box::new(r_ty),
                            information: TypeCkOutput { ty, pi: *info },
                        },
                    ),
                    None => tc_err(
                        TypeCkError::ExpressionUnaryTypeCkFail(
                            r_ty.information().ty.duplicate(),
                            operator.duplicate(),
                        ),
                    ),
                }
            },
            Expression::Literal { literal, information: info } => {
                let ty = match &literal.1 {
                    TokenKind::Str(_) => TypeInformation::String,
                    TokenKind::Integer(_) => TypeInformation::Int,
                    TokenKind::Float(_) => TypeInformation::Float,
                    TokenKind::True => TypeInformation::Boolean,
                    TokenKind::False => TypeInformation::Boolean,
                    TokenKind::Identifier(s) => {
                        let id = Symbol::from_string(s.clone());
                        match self.scopes.get_symbol_data(self.symbol_table, &id, info.scope_depth) {
                            Some(d) => d.ty().duplicate(),
                            None => {
                                return tc_err(TypeCkError::TypeNotFound(id));
                            },
                        }
                    },
                    _ => {
                        return tc_err(TypeCkError::InvalidLiteralInPosition(literal.duplicate()));
                    },
                };
                Ok(Expression::Literal { literal: literal.duplicate(), information: TypeCkOutput { ty, pi: *info } })
            },
            Expression::Sequence { seq, information: sinfo } => {
                let mut new_seq: Vec<Expression<TypeCkOutput>> = Vec::new();
                let mut i: usize = 0;
                assert(*expr == Expression::Sequence { seq: *seq, information: *sinfo });
                assert(seq@.subrange(0, 0) =~= Seq::<Expression<ParseInfo>>::empty());
                while i < seq.len()
                    invariant
                        i <= seq@.len(),
                        *expr == (Expression::Sequence { seq: *seq, information: *sinfo }),
                        sc == self.tables(),
                        tbl == self.table(),
                        new_seq@.len() == i,
                        forall|j: int| 0 <= j < seq@.len() ==> seqs_nonempty(#[trigger] seq@[j]),
                        forall|j: int| 0 <= j < i ==> typed_expr(sc, tbl, #[trigger] seq@[j], new_seq@[j]),
                        tc_all(sc, tbl, seq@.subrange(0, i as int)) is Ok,
                    decreases seq@.len() - i,
                {
                    let ghost pre = seq@.subrange(0, i as int + 1);
                    assert(pre.subrange(0, pre.len() - 1) =~= seq@.subrange(0, i as int));
                    proof {
                        assert((*expr)->seq == *seq);
                        assert(decreases_to!(*expr => *seq));
                        assert(decreases_to!(*seq => seq[i as int]));
                    }
                    let item = self.visit_expression(&seq[i]);
                    match item {
                        Ok(t) => {
                            new_seq.push(t);
                        },
                        Err(e) => {
                            proof {
                                assert(pre[pre.len() - 1] == seq@[i as int]);
                                assert(tc_all(sc, tbl, pre) is Err);
                                lemma_tc_all_prefix(sc, tbl, seq@, i + 1);
                            }
                            return Err(e);
                        },
                    }
                    i = i + 1;
                }
                assert(seq@.subrange(0, seq@.len() as int) =~= seq@);
                let fin_info = new_seq[new_seq.len() - 1].information().duplicate();
                Ok(Expression::Sequence { seq: new_seq, information: fin_info })
            },
            Expression::Assignment { name, value, information: info } => {
                let lhs_ty = match self.scopes.get_symbol_data(self.symbol_table, name, info.scope_depth) {
                    Some(d) => d.ty().duplicate(),
                    None => {
                        return tc_err(TypeCkError::TypeNotFound(name.duplicate()));
                    },
                };
                let rhs_ty = match self.visit_expression(value) {
                    Ok(v) => v,
                    Err(e) => {
                        return Err(e);
                    },
                };
                if !lhs_ty.same(&rhs_ty.information().ty) {
                    tc_err(TypeCkError::InvalidAssignment(lhs_ty, rhs_ty.information().ty.duplicate()))
                } else {
                    Ok(
                        Expression::Assignment {
                            name: name.duplicate(),
                            value: Box::new(rhs_ty),
                            information: TypeCkOutput { ty: lhs_ty, pi: *info },
                        },
                    )
                }
            },
            Expression::If { check_expression, body, else_body, information } => {
                let check_ty = match self.visit_expression(check_expression) {
                    Ok(c) => c,
                    Err(e) => {
                        return Err(e);
                    },
                };
                let is_bool = match &check_ty.information().ty {
                    TypeInformation::Boolean => true,
                    _ => false,
                };
                if !is_bool {
                    return tc_err(TypeCkError::InvalidIfExpressionCheck(check_ty.information().ty.duplicate()));
                }
                let else_body_type = match else_body {
                    Some(eb) => match self.visit_expression(eb) {
                        Ok(t) => Some(Box::new(t)),
                        Err(e) => {
                            return Err(e);
                        },
                    },
                    None => None,
                };
                let primary_body_type = match self.visit_expression(body) {
                    Ok(t) => t,
                    Err(e) => {
                        return Err(e);
                    },
                };
                match &else_body_type {
                    Some(el) => {
                        if !primary_body_type.information().ty.same(&el.information().ty) {
                            return tc_err(
                                TypeCkError::InvalidIfBranches(
                                    el.information().ty.duplicate(),
                                    primary_body_type.information().ty.duplicate(),
                                ),
                            );
                        }
                    },
                    None => {},
                }
                let ty = primary_body_type.information().ty.duplicate();
                Ok(
                    Expression::If {
                        check_expression: Box::new(check_ty),
                        body: Box::new(primary_body_type),
                        else_body: else_body_type,
                        information: TypeCkOutput { ty, pi: *information },
                    },
                )
            },
            Expression::BlockExpression { statements, information: info } => {
                assert(*expr == Expression::BlockExpression { statements: *statements, information: *info });
                let internal_typeck = TypeCk::new(self.scopes, info.current_symbol_table);
                let ghost itbl = info.current_symbol_table as nat;
                let mut annotated: Vec<Statement<TypeCkOutput>> = Vec::new();
                let mut i: usize = 0;
                assert(seqs_nonempty(*expr));
                assert(statements@.subrange(0, 0) =~= Seq::<Statement<ParseInfo>>::empty());
                while i < statements.len()
                    invariant
                        i <= statements@.len(),
                        *expr == (Expression::BlockExpression { statements: *statements, information: *info }),
                        itbl == info.current_symbol_table,
                        sc == self.tables(),
                        internal_typeck.tables() == sc,
                        internal_typeck.table() == itbl,
                        annotated@.len() == i,
                        forall|j: int|
                            0 <= j < statements@.len() ==> stmt_seqs_nonempty(#[trigger] statements@[j]),
                        forall|j: int| 0 <= j < i ==> typed_stmt(sc, itbl, #[trigger] statements@[j], annotated@[j]),
                        tc_stmts(sc, itbl, statements@.subrange(0, i as int)) is Ok,
                    decreases statements@.len() - i,
                {
                    let ghost pre = statements@.subrange(0, i as int + 1);
                    assert(pre.subrange(0, pre.len() - 1) =~= statements@.subrange(0, i as int));
                    proof {
                        assert((*expr)->statements == *statements);
                        assert(decreases_to!(*expr => *statements));
                        assert(decreases_to!(*statements => statements[i as int]));
                    }
                    match internal_typeck.visit_statement(&statements[i]) {
                        Ok(t) => {
                            annotated.push(t);
                        },
                        Err(e) => {
                            proof {
                                assert(pre[pre.len() - 1] == statements@[i as int]);
                                assert(tc_stmts(sc, itbl, pre) is Err);
                                lemma_tc_stmts_prefix(sc, itbl, statements@, i + 1);
                            }
                            return Err(e);
                        },
                    }
                    i = i + 1;
                }
                assert(statements@.subrange(0, statements@.len() as int) =~= statements@);
                Ok(
                    Expression::BlockExpression {
                        statements: annotated,
                        information: TypeCkOutput { ty: TypeInformation::Unit, pi: *info },
                    },
                )
            },
            Expression::LoopExpression { predicate, body, information } => {
                let predicate_checked = match predicate {
                    Some(pred_body) => {
                        let pred = match self.visit_expression(pred_body) {
                            Ok(p) => p,
                            Err(e) => {
                                return Err(e);
                            },
                        };
                        let is_bool = match &pred.information().ty {
                            TypeInformation::Boolean => true,
                            _ => false,
                        };
                        if !is_bool {
                            return tc_err(TypeCkError::InvalidPredicate(pred.information().ty.duplicate()));
                        }
                        Some(Box::new(pred))
                    },
                    None => None,
                };
                let body_checked = match self.visit_expression(body) {
                    Ok(b) => b,
                    Err(e) => {
                        return Err(e);
                    },
                };
                let body_ty = body_checked.information().ty.duplicate();
                Ok(
                    Expression::LoopExpression {
                        predicate: predicate_checked,
                        body: Box::new(body_checked),
                        information: TypeCkOutput { ty: body_ty, pi: *information },
                    },
                )
            },
        }
    }

    /// Checks a statement and annotates each of its nodes with its type.
    pub fn visit_statement(&self, stmt: &Statement<ParseInfo>) -> (r: Result<Statement<TypeCkOutput>, TransformError>)
        requires
            stmt_seqs_nonempty(*stmt),
        ensures
            checked_stmt(self.tables(), self.table(), *stmt, r),
        decreases stmt,
    {
        match stmt {
            Statement::ExpressionStatement { expression, information: info } => {
                let aug_expr = match self.visit_expression(expression) {
                    Ok(e) => e,
                    Err(e) => {
                        return Err(e);
                    },
                };
                Ok(
                    Statement::ExpressionStatement {
                        expression: aug_expr,
                        information: TypeCkOutput { ty: TypeInformation::Unit, pi: *info },
                    },
                )
            },
            Statement::PrintStatement { expression, information: info } => {
                let aug_expr = match self.visit_expression(expression) {
                    Ok(e) => e,
                    Err(e) => {
                        return Err(e);
                    },
                };
                Ok(
                    Statement::PrintStatement {
                        expression: aug_expr,
                        information: TypeCkOutput { ty: TypeInformation::Unit, pi: *info },
                    },
                )
            },
            Statement::VarStatement { ident, init, information: info } => {
                let aug_expr = match self.visit_expression(init) {
                    Ok(e) => e,
                    Err(e) => {
                        return Err(e);
                    },
                };
                let ty_match = match self.scopes.get_symbol_data(self.symbol_table, ident, info.scope_depth) {
                    Some(SymbolData::Type { .. }) => {
                        return tc_err(TypeCkError::InvalidTypeInPosition(ident.duplicate()));
                    },
                    Some(d) => d.ty().same(&aug_expr.information().ty),
                    None => {
                        return tc_err(TypeCkError::TypeNotFound(ident.duplicate()));
                    },
                };
                if !ty_match {
                    return tc_err(TypeCkError::IncorrectInitializer(ident.duplicate()));
                }
                Ok(
                    Statement::VarStatement {
                        ident: ident.duplicate(),
                        init: aug_expr,
                        information: TypeCkOutput { ty: TypeInformation::Unit, pi: *info },
                    },
                )
            },
        }
    }
}


/// Whether every sequence expression in the tree has at least one element.
pub open spec fn tree_seqs_nonempty(t: AbstractTree<ParseInfo>) -> bool {
    match t.view_inner() {
        InnerAbstractTree::Expression((e, _)) => seqs_nonempty(e),
        InnerAbstractTree::Statement((s, _)) => stmt_seqs_nonempty(s),
    }
}

/// What the checker records at the top of a tree, or the error it reports.
pub open spec fn tc_tree(sc: Seq<TableView>, tbl: nat, t: AbstractTree<ParseInfo>) -> Result<TypeCkOutput, TypeCkError> {
    match t.view_inner() {
        InnerAbstractTree::Expression((e, _)) => tc_expr(sc, tbl, e),
        InnerAbstractTree::Statement((s, _)) => tc_stmt(sc, tbl, s),
    }
}

/// Whether `out` is the tree `inp` with each node annotated as the checker records it.
pub open spec fn typed_tree(sc: Seq<TableView>, tbl: nat, inp: AbstractTree<ParseInfo>, out: AbstractTree<TypeCkOutput>) -> bool {
    match (inp.view_inner(), out.view_inner()) {
        (InnerAbstractTree::Expression((e, _)), InnerAbstractTree::Expression((e2, i2))) => typed_expr(
            sc,
            tbl,
            e,
            e2,
        ) && i2 == expr_info(e2),
        (InnerAbstractTree::Statement((s, _)), InnerAbstractTree::Statement((s2, i2))) => typed_stmt(
            sc,
            tbl,
            s,
            s2,
        ) && i2 == stmt_info(s2),
        _ => false,
    }
}

/// What the checker records for a function, or the error it reports: its body
/// must have the declared return type.
pub open spec fn tc_function(sc: Seq<TableView>, tbl: nat, f: Function<ParseInfo>) -> Result<TypeCkOutput, TypeCkError> {
    match tc_tree(sc, tbl, f.chunk) {
        Err(e) => Err(e),
        Ok(b) => if same_type(b.ty, f.return_ty) {
            Ok(TypeCkOutput { ty: f.return_ty, pi: f.information })
        } else {
            Err(TypeCkError::InvalidFunctionReturn(b.ty, f.return_ty))
        },
    }
}

/// Whether `out` is the function `inp` with its body annotated as the checker records it.
pub open spec fn typed_function(sc: Seq<TableView>, tbl: nat, inp: Function<ParseInfo>, out: Function<TypeCkOutput>) -> bool {
    &&& tc_function(sc, tbl, inp) == Ok::<TypeCkOutput, TypeCkError>(out.information)
    &&& out.args@ == inp.args@
    &&& typed_tree(sc, tbl, inp.chunk, out.chunk)
    &&& out.name == inp.name
    &&& out.return_ty == inp.return_ty
}

/// A copy of a list of function arguments.
pub fn copy_args(args: &Vec<FunctionArg>) -> (r: Vec<FunctionArg>)
    ensures
        r@ == args@,
{
    let mut out: Vec<FunctionArg> = Vec::new();
    let mut i: usize = 0;
    while i < args.len()
        invariant
            i <= args@.len(),
            out@ == args@.subrange(0, i as int),
        decreases args@.len() - i,
    {
        out.push(args[i].duplicate());
        i = i + 1;
        assert(out@ =~= args@.subrange(0, i as int));
    }
    assert(args@.subrange(0, i as int) =~= args@);
    out
}

impl<'a> TypeCk<'a> {
    /// Checks the tree and annotates each of its nodes with its type.
    pub fn transform_tree(&self, tree: &AbstractTree<ParseInfo>) -> (r: Result<AbstractTree<TypeCkOutput>, TransformError>)
        requires
            tree_seqs_nonempty(*tree),
        ensures
            match r {
                Ok(out) => typed_tree(self.tables(), self.table(), *tree, out) && tc_tree(
                    self.tables(),
                    self.table(),
                    *tree,
                ) == Ok::<TypeCkOutput, TypeCkError>(out.info()),
                Err(TransformError::TypeCkError(e)) => tc_tree(self.tables(), self.table(), *tree) == Err::<
                    TypeCkOutput,
                    TypeCkError,
                >(e),
                Err(_) => false,
            },
    {
        match tree.inner() {
            InnerAbstractTree::Expression((e, _)) => {
                let ty_aug = match self.visit_expression(e) {
                    Ok(t) => t,
                    Err(err) => {
                        return Err(err);
                    },
                };
                let info = ty_aug.information().duplicate();
                Ok(AbstractTree::expression(ty_aug, info))
            },
            InnerAbstractTree::Statement((st, _)) => {
                let ty_aug = match self.visit_statement(st) {
                    Ok(t) => t,
                    Err(err) => {
                        return Err(err);
                    },
                };
                let info = ty_aug.information().duplicate();
                Ok(AbstractTree::statement(ty_aug, info))
            },
        }
    }

    /// Checks a function: its body, and that the body has the return type.
    pub fn visit_function(&self, func: &Function<ParseInfo>) -> (r: Result<Function<TypeCkOutput>, TransformError>)
        requires
            tree_seqs_nonempty(func.chunk),
        ensures
            match r {
                Ok(out) => typed_function(self.tables(), self.table(), *func, out),
                Err(TransformError::TypeCkError(e)) => tc_function(self.tables(), self.table(), *func) == Err::<
                    TypeCkOutput,
                    TypeCkError,
                >(e),
                Err(_) => false,
            },
    {
        let body_ty = match self.transform_tree(&func.chunk) {
            Ok(b) => b,
            Err(e) => {
                return Err(e);
            },
        };
        if !body_ty.information().ty.same(&func.return_ty) {
            return tc_err(
                TypeCkError::InvalidFunctionReturn(body_ty.information().ty.duplicate(), func.return_ty.duplicate()),
            );
        }
        Ok(
            Function {
                args: copy_args(&func.args),
                chunk: body_ty,
                name: func.name.duplicate(),
                return_ty: func.return_ty.duplicate(),
                information: TypeCkOutput { ty: func.return_ty.duplicate(), pi: func.information },
            },
        )
    }

    /// Checks an item.
    pub fn transform_item(&self, item: &Item<ParseInfo>) -> (r: Result<Item<TypeCkOutput>, TransformError>)
        requires
            match *item {
                Item::Function(f) => tree_seqs_nonempty(f.chunk),
            },
        ensures
            match (*item, r) {
                (Item::Function(f), Ok(Item::Function(out))) => typed_function(self.tables(), self.table(), f, out),
                (Item::Function(f), Err(TransformError::TypeCkError(e))) => tc_function(
                    self.tables(),
                    self.table(),
                    f,
                ) == Err::<TypeCkOutput, TypeCkError>(e),
                _ => false,
            },
    {
        match item {
            Item::Function(func) => match self.visit_function(func) {
                Ok(f) => Ok(Item::Function(f)),
                Err(e) => Err(e),
            },
        }
    }
}

} // verus!

verus! {

/// Whether every sequence expression in `e` has an element, as `seqs_nonempty` says.
pub fn sequences_filled(e: &Expression<ParseInfo>) -> (r: bool)
    ensures
        r == seqs_nonempty(*e),
    decreases e,
{
    match e {
        Expression::Binary { left, right, .. } => sequences_filled(left) && sequences_filled(right),
        Expression::Unary { right, .. } => sequences_filled(right),
        Expression::Literal { .. } => true,
        Expression::Sequence { seq, information: sinfo } => {
            if seq.len() == 0 {
                return false;
            }
            let mut i: usize = 0;
            while i < seq.len()
                invariant
                    i <= seq@.len(),
                    *e == (Expression::Sequence { seq: *seq, information: *sinfo }),
                    forall|j: int| 0 <= j < i ==> seqs_nonempty(#[trigger] seq@[j]),
                decreases seq@.len() - i,
            {
                proof {
                    assert((*e)->seq == *seq);
                    assert(decreases_to!(*e => *seq));
                    assert(decreases_to!(*seq => seq[i as int]));
                }
                if !sequences_filled(&seq[i]) {
                    return false;
                }
                i = i + 1;
            }
            true
        },
        Expression::Assignment { value, .. } => sequences_filled(value),
        Expression::If { check_expression, body, else_body, .. } => {
            sequences_filled(check_expression) && sequences_filled(body) && match else_body {
                Some(x) => sequences_filled(x),
                None => true,
            }
        },
        Expression::BlockExpression { statements, information: binfo } => {
            let mut i: usize = 0;
            while i < statements.len()
                invariant
                    i <= statements@.len(),
                    *e == (Expression::BlockExpression { statements: *statements, information: *binfo }),
                    forall|j: int| 0 <= j < i ==> stmt_seqs_nonempty(#[trigger] statements@[j]),
                decreases statements@.len() - i,
            {
                proof {
                    assert((*e)->statements == *statements);
                    assert(decreases_to!(*e => *statements));
                    assert(decreases_to!(*statements => statements[i as int]));
                }
                if !stmt_sequences_filled(&statements[i]) {
                    return false;
                }
                i = i + 1;
            }
            true
        },
        Expression::LoopExpression { predicate, body, .. } => {
            sequences_filled(body) && match predicate {
                Some(x) => sequences_filled(x),
                None => true,
            }
        },
    }
}

/// Whether every sequence expression in `s` has an element, as `stmt_seqs_nonempty` says.
pub fn stmt_sequences_filled(s: &Statement<ParseInfo>) -> (r: bool)
    ensures
        r == stmt_seqs_nonempty(*s),
    decreases s,
{
    match s {
        Statement::ExpressionStatement { expression, .. } => sequences_filled(expression),
        Statement::PrintStatement { expression, .. } => sequences_filled(expression),
        Statement::VarStatement { init, .. } => sequences_filled(init),
    }
}

/// The checker only annotates: an expression it checks, stripped of its
/// information, is the expression it was given.
pub proof fn lemma_typed_expr_strips(
    sc: Seq<TableView>,
    tbl: nat,
    inp: Expression<ParseInfo>,
    out: Expression<TypeCkOutput>,
)
    requires
        typed_expr(sc, tbl, inp, out),
    ensures
        strip_ev(ev(inp)) == strip_ev(ev(out)),
    decreases inp,
{
    match inp {
        Expression::Binary { left, right, .. } => {
            lemma_typed_expr_strips(sc, tbl, *left, *out->Binary_left);
            lemma_typed_expr_strips(sc, tbl, *right, *out->Binary_right);
        },
        Expression::Unary { right, .. } => {
            lemma_typed_expr_strips(sc, tbl, *right, *out->Unary_right);
        },
        Expression::Literal { .. } => {},
        Expression::Sequence { seq, .. } => {
            let s2 = out->Sequence_seq;
            assert forall|i: int| 0 <= i < seq@.len() implies strip_ev(ev(#[trigger] seq@[i])) == strip_ev(
                ev(s2@[i]),
            ) by {
                assert(decreases_to!(inp => seq));
                assert(decreases_to!(seq => seq@[i]));
                lemma_typed_expr_strips(sc, tbl, seq@[i], s2@[i]);
            }
            assert(strip_ev(ev(inp))->Sequence_seq =~= strip_ev(ev(out))->Sequence_seq);
        },
        Expression::Assignment { value, .. } => {
            lemma_typed_expr_strips(sc, tbl, *value, *out->Assignment_value);
        },
        Expression::If { check_expression, body, else_body, .. } => {
            lemma_typed_expr_strips(sc, tbl, *check_expression, *out->If_check_expression);
            lemma_typed_expr_strips(sc, tbl, *body, *out->If_body);
            match else_body {
                Some(x) => {
                    lemma_typed_expr_strips(sc, tbl, *x, *out->If_else_body->0);
                },
                None => {},
            }
        },
        Expression::BlockExpression { statements, information } => {
            let s2 = out->BlockExpression_statements;
            let t = information.current_symbol_table as nat;
            assert forall|i: int| 0 <= i < statements@.len() implies strip_sv(sv(#[trigger] statements@[i]))
                == strip_sv(sv(s2@[i])) by {
                assert(decreases_to!(inp => statements));
                assert(decreases_to!(statements => statements@[i]));
                lemma_typed_stmt_strips(sc, t, statements@[i], s2@[i]);
            }
            assert(strip_ev(ev(inp))->BlockExpression_statements =~= strip_ev(ev(out))->BlockExpression_statements);
        },
        Expression::LoopExpression { predicate, body, .. } => {
            lemma_typed_expr_strips(sc, tbl, *body, *out->LoopExpression_body);
            match predicate {
                Some(x) => {
                    lemma_typed_expr_strips(sc, tbl, *x, *out->LoopExpression_predicate->0);
                },
                None => {},
            }
        },
    }
}

/// The checker only annotates statements: one it checks, stripped of its
/// information, is the statement it was given.
pub proof fn lemma_typed_stmt_strips(
    sc: Seq<TableView>,
    tbl: nat,
    inp: Statement<ParseInfo>,
    out: Statement<TypeCkOutput>,
)
    requires
        typed_stmt(sc, tbl, inp, out),
    ensures
        strip_sv(sv(inp)) == strip_sv(sv(out)),
    decreases inp,
{
    match inp {
        Statement::ExpressionStatement { expression, .. } => {
            lemma_typed_expr_strips(sc, tbl, expression, out->ExpressionStatement_expression);
        },
        Statement::PrintStatement { expression, .. } => {
            lemma_typed_expr_strips(sc, tbl, expression, out->PrintStatement_expression);
        },
        Statement::VarStatement { init, .. } => {
            lemma_typed_expr_strips(sc, tbl, init, out->VarStatement_init);
        },
    }
}

/// The checker only annotates: a tree it checks, stripped of its information,
/// is the tree it was given; and a checked function keeps its name, arguments,
/// return type and (stripped) body.
pub proof fn lemma_check_only_annotates(
    sc: Seq<TableView>,
    tbl: nat,
    inp: AbstractTree<ParseInfo>,
    out: AbstractTree<TypeCkOutput>,
)
    requires
        typed_tree(sc, tbl, inp, out),
    ensures
        strip_tv(tv(inp)) == strip_tv(tv(out)),
{
    match (inp.view_inner(), out.view_inner()) {
        (InnerAbstractTree::Expression((e, _)), InnerAbstractTree::Expression((e2, _))) => {
            lemma_typed_expr_strips(sc, tbl, e, e2);
        },
        (InnerAbstractTree::Statement((st, _)), InnerAbstractTree::Statement((s2, _))) => {
            lemma_typed_stmt_strips(sc, tbl, st, s2);
        },
        _ => {},
    }
}

/// A function the checker accepts keeps its name, arguments and return type,
/// and its body strips to the body it was given.
pub proof fn lemma_check_function_only_annotates(
    sc: Seq<TableView>,
    tbl: nat,
    inp: Function<ParseInfo>,
    out: Function<TypeCkOutput>,
)
    requires
        typed_function(sc, tbl, inp, out),
    ensures
        out.name == inp.name,
        out.args@ == inp.args@,
        out.return_ty == inp.return_ty,
        strip_tv(tv(inp.chunk)) == strip_tv(tv(out.chunk)),
{
    lemma_check_only_annotates(sc, tbl, inp.chunk, out.chunk);
}

/// Whether every sequence expression in the tree has an element, as
/// `tree_seqs_nonempty` says; the checker may be run on it where this holds.
pub fn tree_sequences_filled(t: &AbstractTree<ParseInfo>) -> (r: bool)
    ensures
        r == tree_seqs_nonempty(*t),
{
    match t.inner() {
        InnerAbstractTree::Expression((e, _)) => sequences_filled(e),
        InnerAbstractTree::Statement((s, _)) => stmt_sequences_filled(s),
    }
}

} // verus!

verus! {

/// How a type is written in messages.
pub open spec fn type_text(t: TypeInformation) -> Seq<char> {
    match t {
        TypeInformation::Int => "Int"@,
        TypeInformation::String => "String"@,
        TypeInformation::Float => "Float"@,
        TypeInformation::Boolean => "Boolean"@,
        TypeInformation::NonLiteral(s) => s@,
        TypeInformation::Unit => "!"@,
    }
}

/// How a type-checking error is written in messages.
pub open spec fn typeck_error_text(e: TypeCkError) -> Seq<char> {
    match e {
        TypeCkError::ExpressionBinaryTypeCkFail(l, r, op) => "Type Mismatch! Left Ty: "@ + type_text(l)
            + ", Right Ty: "@ + type_text(r) + ", Oper: "@ + token_text(op@),
        TypeCkError::ExpressionUnaryTypeCkFail(r, op) => "Type Mismatch! Right Ty: "@ + type_text(r) + ", Oper: "@
            + token_text(op@),
        TypeCkError::TypeNotFound(id) => "Type not found for variable: "@ + id@,
        TypeCkError::InvalidTypeInPosition(id) => "!! A type was sent where a variable name was expected: "@ + id@
            + " !!"@,
        TypeCkError::IncorrectInitializer(id) => "Incorrect initializer for identifier: "@ + id@,
        TypeCkError::InvalidAssignment(l, r) => "Invalid assignment; LHS = "@ + type_text(l) + ", RHS = "@
            + type_text(r) + " and there is no type-unity"@,
        TypeCkError::InvalidLiteralInPosition(tk) => "!! A non-literal token was found where a literal was expected: "@
            + token_text(tk@) + " !!"@,
        TypeCkError::InvalidIfExpressionCheck(t) => "Type Mismatch! Expected boolean, instead an if expression produced: "@
            + type_text(t),
        TypeCkError::InvalidIfBranches(l, r) => "Type Mismatch! Primary If Body: "@ + type_text(l) + ", Else Body: "@
            + type_text(r),
        TypeCkError::InvalidPredicate(t) => "Type Mismatch! Expected boolean, got: "@ + type_text(t),
        TypeCkError::InvalidFunctionReturn(x, y) => "Type Mismatch! Expected a function returning "@ + type_text(x)
            + ", got: "@ + type_text(y),
    }
}

/// Appends how `t` is written in messages to `out`.
fn push_type(out: &mut String, t: &TypeInformation)
    ensures
        final(out)@ == old(out)@ + type_text(*t),
{
    match t {
        TypeInformation::Int => push_str(out, "Int"),
        TypeInformation::String => push_str(out, "String"),
        TypeInformation::Float => push_str(out, "Float"),
        TypeInformation::Boolean => push_str(out, "Boolean"),
        TypeInformation::NonLiteral(s) => push_str(out, s.id().as_str()),
        TypeInformation::Unit => push_str(out, "!"),
    }
}

impl TypeInformation {
    /// The type as messages write it.
    pub fn describe(&self) -> (r: String)
        ensures
            r@ == type_text(*self),
    {
        let mut s = String::new();
        push_type(&mut s, self);
        assert(s@ =~= type_text(*self));
        s
    }
}

impl TypeCkError {
    /// The error as messages write it.
    pub fn describe(&self) -> (r: String)
        ensures
            r@ == typeck_error_text(*self),
    {
        let mut s = String::new();
        match self {
            TypeCkError::ExpressionBinaryTypeCkFail(l, r, op) => {
                push_str(&mut s, "Type Mismatch! Left Ty: ");
                push_type(&mut s, l);
                push_str(&mut s, ", Right Ty: ");
                push_type(&mut s, r);
                push_str(&mut s, ", Oper: ");
                push_str(&mut s, op.describe().as_str());
            },
            TypeCkError::ExpressionUnaryTypeCkFail(r, op) => {
                push_str(&mut s, "Type Mismatch! Right Ty: ");
                push_type(&mut s, r);
                push_str(&mut s, ", Oper: ");
                push_str(&mut s, op.describe().as_str());
            },
            TypeCkError::TypeNotFound(id) => {
                push_str(&mut s, "Type not found for variable: ");
                push_str(&mut s, id.id().as_str());
            },
            TypeCkError::InvalidTypeInPosition(id) => {
                push_str(&mut s, "!! A type was sent where a variable name was expected: ");
                push_str(&mut s, id.id().as_str());
                push_str(&mut s, " !!");
            },
            TypeCkError::IncorrectInitializer(id) => {
                push_str(&mut s, "Incorrect initializer for identifier: ");
                push_str(&mut s, id.id().as_str());
            },
            TypeCkError::InvalidAssignment(l, r) => {
                push_str(&mut s, "Invalid assignment; LHS = ");
                push_type(&mut s, l);
                push_str(&mut s, ", RHS = ");
                push_type(&mut s, r);
                push_str(&mut s, " and there is no type-unity");
            },
            TypeCkError::InvalidLiteralInPosition(tk) => {
                push_str(&mut s, "!! A non-literal token was found where a literal was expected: ");
                push_str(&mut s, tk.describe().as_str());
                push_str(&mut s, " !!");
            },
            TypeCkError::InvalidIfExpressionCheck(t) => {
                push_str(&mut s, "Type Mismatch! Expected boolean, instead an if expression produced: ");
                push_type(&mut s, t);
            },
            TypeCkError::InvalidIfBranches(l, r) => {
                push_str(&mut s, "Type Mismatch! Primary If Body: ");
                push_type(&mut s, l);
                push_str(&mut s, ", Else Body: ");
                push_type(&mut s, r);
            },
            TypeCkError::InvalidPredicate(t) => {
                push_str(&mut s, "Type Mismatch! Expected boolean, got: ");
                push_type(&mut s, t);
            },
            TypeCkError::InvalidFunctionReturn(x, y) => {
                push_str(&mut s, "Type Mismatch! Expected a function returning ");
                push_type(&mut s, x);
                push_str(&mut s, ", got: ");
                push_type(&mut s, y);
            },
        }
        assert(s@ =~= typeck_error_text(*self));
        s
    }
}

} // verus!
