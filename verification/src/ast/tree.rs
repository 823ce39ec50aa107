//! The syntax tree, each node carrying information of type `T`.

use vstd::prelude::*;
use crate::bytecode::Symbol;
use crate::lexer::token::Token;
use crate::ast::transformers::typeck::TypeInformation;

verus! {

/// An expression.
#[derive(Debug, PartialEq)]
pub enum Expression<T> {
    Binary { left: Box<Expression<T>>, operator: Token, right: Box<Expression<T>>, information: T },
    Unary { operator: Token, right: Box<Expression<T>>, information: T },
    Literal { literal: Token, information: T },
    Sequence { seq: Vec<Expression<T>>, information: T },
    Assignment { name: Symbol, value: Box<Expression<T>>, information: T },
    If {
        check_expression: Box<Expression<T>>,
        body: Box<Expression<T>>,
        else_body: Option<Box<Expression<T>>>,
        information: T,
    },
    BlockExpression { statements: Vec<Statement<T>>, information: T },
    LoopExpression { predicate: Option<Box<Expression<T>>>, body: Box<Expression<T>>, information: T },
}

/// A statement.
#[derive(Debug, PartialEq)]
pub enum Statement<T> {
    ExpressionStatement { expression: Expression<T>, information: T },
    PrintStatement { expression: Expression<T>, information: T },
    VarStatement { ident: Symbol, init: Expression<T>, information: T },
}

/// The information carried by an expression.
pub open spec fn expr_info<T>(e: Expression<T>) -> T {
    match e {
        Expression::Binary { information, .. } => information,
        Expression::Unary { information, .. } => information,
        Expression::Literal { information, .. } => information,
        Expression::Sequence { information, .. } => information,
        Expression::Assignment { information, .. } => information,
        Expression::If { information, .. } => information,
        Expression::BlockExpression { information, .. } => information,
        Expression::LoopExpression { information, .. } => information,
    }
}

/// The information carried by a statement.
pub open spec fn stmt_info<T>(s: Statement<T>) -> T {
    match s {
        Statement::ExpressionStatement { information, .. } => information,
        Statement::PrintStatement { information, .. } => information,
        Statement::VarStatement { information, .. } => information,
    }
}

impl<T> Expression<T> {
    pub fn information(&self) -> (r: &T)
        ensures
            *r == expr_info(*self),
    {
        match self {
            Expression::Binary { information, .. } => information,
            Expression::Unary { information, .. } => information,
            Expression::Literal { information, .. } => information,
            Expression::Sequence { information, .. } => information,
            Expression::Assignment { information, .. } => information,
            Expression::If { information, .. } => information,
            Expression::BlockExpression { information, .. } => information,
            Expression::LoopExpression { information, .. } => information,
        }
    }
}

impl<T> Statement<T> {
    pub fn information(&self) -> (r: &T)
        ensures
            *r == stmt_info(*self),
    {
        match self {
            Statement::ExpressionStatement { information, .. } => information,
            Statement::PrintStatement { information, .. } => information,
            Statement::VarStatement { information, .. } => information,
        }
    }
}

/// A tree at the top of a unit: an expression or a statement, with information.
#[derive(Debug, PartialEq)]
pub enum InnerAbstractTree<T> {
    Expression((Expression<T>, T)),
    Statement((Statement<T>, T)),
}

/// A unit of code: an expression or a statement, with information.
#[derive(Debug, PartialEq)]
pub struct AbstractTree<T> {
    inner: InnerAbstractTree<T>,
}

impl<T> AbstractTree<T> {
    pub closed spec fn view_inner(&self) -> InnerAbstractTree<T> {
        self.inner
    }

    /// The information of the tree.
    pub open spec fn info(&self) -> T {
        match self.view_inner() {
            InnerAbstractTree::Expression((_, i)) => i,
            InnerAbstractTree::Statement((_, i)) => i,
        }
    }

    pub fn information(&self) -> (r: &T)
        ensures
            *r == self.info(),
    {
        match &self.inner {
            InnerAbstractTree::Expression((_, info)) => info,
            InnerAbstractTree::Statement((_, info)) => info,
        }
    }

    pub fn expression(expression: Expression<T>, information: T) -> (r: AbstractTree<T>)
        ensures
            r.view_inner() == InnerAbstractTree::Expression((expression, information)),
    {
        AbstractTree { inner: InnerAbstractTree::Expression((expression, information)) }
    }

    pub fn statement(statement: Statement<T>, information: T) -> (r: AbstractTree<T>)
        ensures
            r.view_inner() == InnerAbstractTree::Statement((statement, information)),
    {
        AbstractTree { inner: InnerAbstractTree::Statement((statement, information)) }
    }

    pub fn inner(&self) -> (r: &InnerAbstractTree<T>)
        ensures
            *r == self.view_inner(),
    {
        &self.inner
    }
}

/// An argument of a function: its name and type.
#[derive(Debug)]
pub struct FunctionArg {
    pub name: Symbol,
    pub ty: TypeInformation,
}

impl FunctionArg {
    /// A copy of the argument.
    pub fn duplicate(&self) -> (r: FunctionArg)
        ensures
            r == *self,
    {
        FunctionArg { name: self.name.duplicate(), ty: self.ty.duplicate() }
    }
}

/// A function: its arguments, body, name and return type.
#[derive(Debug)]
pub struct Function<T> {
    pub args: Vec<FunctionArg>,
    pub chunk: AbstractTree<T>,
    pub name: Symbol,
    pub return_ty: TypeInformation,
    pub information: T,
}

/// A top-level item.
#[derive(Debug)]
pub enum Item<T> {
    Function(Function<T>),
}

impl<T> Item<T> {
    pub fn information(&self) -> (r: &T)
        ensures
            *r == match *self {
                Item::Function(f) => f.information,
            },
    {
        match self {
            Item::Function(func) => &func.information,
        }
    }
}


/// An expression seen mathematically: lists of subexpressions and of
/// statements as sequences.
pub enum ExprV<T> {
    Binary { left: Box<ExprV<T>>, operator: Token, right: Box<ExprV<T>>, information: T },
    Unary { operator: Token, right: Box<ExprV<T>>, information: T },
    Literal { literal: Token, information: T },
    Sequence { seq: Seq<ExprV<T>>, information: T },
    Assignment { name: Symbol, value: Box<ExprV<T>>, information: T },
    If {
        check_expression: Box<ExprV<T>>,
        body: Box<ExprV<T>>,
        else_body: Option<Box<ExprV<T>>>,
        information: T,
    },
    BlockExpression { statements: Seq<StmtV<T>>, information: T },
    LoopExpression { predicate: Option<Box<ExprV<T>>>, body: Box<ExprV<T>>, information: T },
    Absent,
}

/// A statement seen mathematically.
pub enum StmtV<T> {
    ExpressionStatement { expression: ExprV<T>, information: T },
    PrintStatement { expression: ExprV<T>, information: T },
    VarStatement { ident: Symbol, init: ExprV<T>, information: T },
    Absent,
}

/// A tree seen mathematically.
pub enum TreeV<T> {
    Expression(ExprV<T>, T),
    Statement(StmtV<T>, T),
}

/// A function seen mathematically.
pub struct FunctionV<T> {
    pub args: Seq<FunctionArg>,
    pub chunk: TreeV<T>,
    pub name: Symbol,
    pub return_ty: TypeInformation,
    pub information: T,
}

/// The mathematical form of an expression.
pub open spec fn ev<T>(e: Expression<T>) -> ExprV<T>
    decreases e,
{
    match e {
        Expression::Binary { left, operator, right, information } => ExprV::Binary {
            left: Box::new(ev(*left)),
            operator,
            right: Box::new(ev(*right)),
            information,
        },
        Expression::Unary { operator, right, information } => ExprV::Unary {
            operator,
            right: Box::new(ev(*right)),
            information,
        },
        Expression::Literal { literal, information } => ExprV::Literal { literal, information },
        Expression::Sequence { seq, information } => ExprV::Sequence {
            seq: Seq::new(seq@.len(), |i: int| if 0 <= i < seq@.len() { ev(seq@[i]) } else { ExprV::Absent }),
            information,
        },
        Expression::Assignment { name, value, information } => ExprV::Assignment {
            name,
            value: Box::new(ev(*value)),
            information,
        },
        Expression::If { check_expression, body, else_body, information } => ExprV::If {
            check_expression: Box::new(ev(*check_expression)),
            body: Box::new(ev(*body)),
            else_body: match else_body {
                Some(x) => Some(Box::new(ev(*x))),
                None => None,
            },
            information,
        },
        Expression::BlockExpression { statements, information } => ExprV::BlockExpression {
            statements: Seq::new(
                statements@.len(),
                |i: int| if 0 <= i < statements@.len() { sv(statements@[i]) } else { StmtV::Absent },
            ),
            information,
        },
        Expression::LoopExpression { predicate, body, information } => ExprV::LoopExpression {
            predicate: match predicate {
                Some(x) => Some(Box::new(ev(*x))),
                None => None,
            },
            body: Box::new(ev(*body)),
            information,
        },
    }
}

/// The mathematical form of a statement.
pub open spec fn sv<T>(s: Statement<T>) -> StmtV<T>
    decreases s,
{
    match s {
        Statement::ExpressionStatement { expression, information } => StmtV::ExpressionStatement {
            expression: ev(expression),
            information,
        },
        Statement::PrintStatement { expression, information } => StmtV::PrintStatement {
            expression: ev(expression),
            information,
        },
        Statement::VarStatement { ident, init, information } => StmtV::VarStatement { ident, init: ev(init), information },
    }
}

/// The mathematical form of a tree.
pub open spec fn tv<T>(t: AbstractTree<T>) -> TreeV<T> {
    match t.view_inner() {
        InnerAbstractTree::Expression((e, i)) => TreeV::Expression(ev(e), i),
        InnerAbstractTree::Statement((s, i)) => TreeV::Statement(sv(s), i),
    }
}

/// The mathematical form of a function.
pub open spec fn fv<T>(f: Function<T>) -> FunctionV<T> {
    FunctionV { args: f.args@, chunk: tv(f.chunk), name: f.name, return_ty: f.return_ty, information: f.information }
}

/// The forms of a list of expressions.
pub open spec fn evs<T>(v: Seq<Expression<T>>) -> Seq<ExprV<T>> {
    Seq::new(v.len(), |i: int| ev(v[i]))
}

/// The forms of a list of statements.
pub open spec fn svs<T>(v: Seq<Statement<T>>) -> Seq<StmtV<T>> {
    Seq::new(v.len(), |i: int| sv(v[i]))
}

/// The form of a sequence expression is made of the forms of its elements.
pub proof fn lemma_ev_seq<T>(v: Vec<Expression<T>>, information: T)
    ensures
        ev(Expression::Sequence { seq: v, information }) == (ExprV::Sequence { seq: evs(v@), information }),
{
    let e = Expression::Sequence { seq: v, information };
    let s2 = ev(e)->Sequence_seq;
    assert(s2.len() == v@.len());
    assert forall|i: int| 0 <= i < v@.len() implies s2[i] == evs(v@)[i] by {}
    assert(s2 =~= evs(v@));
}

/// The form of a block is made of the forms of its statements.
pub proof fn lemma_ev_block<T>(v: Vec<Statement<T>>, information: T)
    ensures
        ev(Expression::BlockExpression { statements: v, information }) == (ExprV::BlockExpression {
            statements: svs(v@),
            information,
        }),
{
    let e = Expression::BlockExpression { statements: v, information };
    let s2 = ev(e)->BlockExpression_statements;
    assert(s2.len() == v@.len());
    assert forall|i: int| 0 <= i < v@.len() implies s2[i] == svs(v@)[i] by {}
    assert(s2 =~= svs(v@));
}

} // verus!

verus! {

/// The form of an expression with every node's information replaced by `()`.
pub open spec fn strip_ev<T>(e: ExprV<T>) -> ExprV<()>
    decreases e,
{
    match e {
        ExprV::Binary { left, operator, right, .. } => ExprV::Binary {
            left: Box::new(strip_ev(*left)),
            operator,
            right: Box::new(strip_ev(*right)),
            information: (),
        },
        ExprV::Unary { operator, right, .. } => ExprV::Unary { operator, right: Box::new(strip_ev(*right)), information: () },
        ExprV::Literal { literal, .. } => ExprV::Literal { literal, information: () },
        ExprV::Sequence { seq, .. } => ExprV::Sequence {
            seq: Seq::new(seq.len(), |i: int| if 0 <= i < seq.len() { strip_ev(seq[i]) } else { ExprV::Absent }),
            information: (),
        },
        ExprV::Assignment { name, value, .. } => ExprV::Assignment {
            name,
            value: Box::new(strip_ev(*value)),
            information: (),
        },
        ExprV::If { check_expression, body, else_body, .. } => ExprV::If {
            check_expression: Box::new(strip_ev(*check_expression)),
            body: Box::new(strip_ev(*body)),
            else_body: match else_body {
                Some(x) => Some(Box::new(strip_ev(*x))),
                None => None,
            },
            information: (),
        },
        ExprV::BlockExpression { statements, .. } => ExprV::BlockExpression {
            statements: Seq::new(
                statements.len(),
                |i: int| if 0 <= i < statements.len() { strip_sv(statements[i]) } else { StmtV::Absent },
            ),
            information: (),
        },
        ExprV::LoopExpression { predicate, body, .. } => ExprV::LoopExpression {
            predicate: match predicate {
                Some(x) => Some(Box::new(strip_ev(*x))),
                None => None,
            },
            body: Box::new(strip_ev(*body)),
            information: (),
        },
        ExprV::Absent => ExprV::Absent,
    }
}

/// The form of a statement with every node's information replaced by `()`.
pub open spec fn strip_sv<T>(s: StmtV<T>) -> StmtV<()>
    decreases s,
{
    match s {
        StmtV::ExpressionStatement { expression, .. } => StmtV::ExpressionStatement {
            expression: strip_ev(expression),
            information: (),
        },
        StmtV::PrintStatement { expression, .. } => StmtV::PrintStatement { expression: strip_ev(expression), information: () },
        StmtV::VarStatement { ident, init, .. } => StmtV::VarStatement { ident, init: strip_ev(init), information: () },
        StmtV::Absent => StmtV::Absent,
    }
}

/// The form of a tree with every node's information replaced by `()`.
pub open spec fn strip_tv<T>(t: TreeV<T>) -> TreeV<()> {
    match t {
        TreeV::Expression(e, _) => TreeV::Expression(strip_ev(e), ()),
        TreeV::Statement(s, _) => TreeV::Statement(strip_sv(s), ()),
    }
}

impl<T> Expression<T> {
    /// A copy of the expression without its information.
    fn stripped(&self) -> (r: Expression<()>)
        ensures
            ev(r) == strip_ev(ev(*self)),
        decreases self,
    {
        match self {
            Expression::Binary { left, operator, right, .. } => Expression::Binary {
                left: Box::new(left.stripped()),
                operator: operator.duplicate(),
                right: Box::new(right.stripped()),
                information: (),
            },
            Expression::Unary { operator, right, .. } => Expression::Unary {
                operator: operator.duplicate(),
                right: Box::new(right.stripped()),
                information: (),
            },
            Expression::Literal { literal, .. } => Expression::Literal { literal: literal.duplicate(), information: () },
            Expression::Sequence { seq, information } => {
                let mut out: Vec<Expression<()>> = Vec::new();
                let mut i: usize = 0;
                while i < seq.len()
                    invariant
                        i <= seq@.len(),
                        *self == (Expression::Sequence { seq: *seq, information: *information }),
                        out@.len() == i,
                        forall|j: int| 0 <= j < i ==> ev(#[trigger] out@[j]) == strip_ev(ev(seq@[j])),
                    decreases seq@.len() - i,
                {
                    proof {
                        assert((*self)->seq == *seq);
                        assert(decreases_to!(*self => *seq));
                        assert(decreases_to!(*seq => seq[i as int]));
                    }
                    out.push(seq[i].stripped());
                    i = i + 1;
                }
                proof {
                    lemma_ev_seq(out, ());
                    lemma_ev_seq(*seq, *information);
                    let want = strip_ev(ev(*self));
                    assert(evs(out@) =~= want->Sequence_seq);
                }
                Expression::Sequence { seq: out, information: () }
            },
            Expression::Assignment { name, value, .. } => Expression::Assignment {
                name: name.duplicate(),
                value: Box::new(value.stripped()),
                information: (),
            },
            Expression::If { check_expression, body, else_body, .. } => Expression::If {
                check_expression: Box::new(check_expression.stripped()),
                body: Box::new(body.stripped()),
                else_body: match else_body {
                    Some(x) => Some(Box::new(x.stripped())),
                    None => None,
                },
                information: (),
            },
            Expression::BlockExpression { statements, information } => {
                let mut out: Vec<Statement<()>> = Vec::new();
                let mut i: usize = 0;
                while i < statements.len()
                    invariant
                        i <= statements@.len(),
                        *self == (Expression::BlockExpression { statements: *statements, information: *information }),
                        out@.len() == i,
                        forall|j: int| 0 <= j < i ==> sv(#[trigger] out@[j]) == strip_sv(sv(statements@[j])),
                    decreases statements@.len() - i,
                {
                    proof {
                        assert((*self)->statements == *statements);
                        assert(decreases_to!(*self => *statements));
                        assert(decreases_to!(*statements => statements[i as int]));
                    }
                    out.push(statements[i].stripped());
                    i = i + 1;
                }
                proof {
                    lemma_ev_block(out, ());
                    lemma_ev_block(*statements, *information);
                    let want = strip_ev(ev(*self));
                    assert(svs(out@) =~= want->BlockExpression_statements);
                }
                Expression::BlockExpression { statements: out, information: () }
            },
            Expression::LoopExpression { predicate, body, .. } => Expression::LoopExpression {
                predicate: match predicate {
                    Some(x) => Some(Box::new(x.stripped())),
                    None => None,
                },
                body: Box::new(body.stripped()),
                information: (),
            },
        }
    }

    /// The expression without its information, to compare shapes.
    pub fn strip_information(self) -> (r: Expression<()>)
        ensures
            ev(r) == strip_ev(ev(self)),
    {
        self.stripped()
    }
}

impl<T> Statement<T> {
    /// A copy of the statement without its information.
    fn stripped(&self) -> (r: Statement<()>)
        ensures
            sv(r) == strip_sv(sv(*self)),
        decreases self,
    {
        match self {
            Statement::ExpressionStatement { expression, .. } => Statement::ExpressionStatement {
                expression: expression.stripped(),
                information: (),
            },
            Statement::PrintStatement { expression, .. } => Statement::PrintStatement {
                expression: expression.stripped(),
                information: (),
            },
            Statement::VarStatement { ident, init, .. } => Statement::VarStatement {
                ident: ident.duplicate(),
                init: init.stripped(),
                information: (),
            },
        }
    }

    /// The statement without its information, to compare shapes.
    pub fn strip_information(self) -> (r: Statement<()>)
        ensures
            sv(r) == strip_sv(sv(self)),
    {
        self.stripped()
    }
}

impl<T> AbstractTree<T> {
    /// The tree without its information, to compare shapes.
    pub fn strip_information(self) -> (r: AbstractTree<()>)
        ensures
            tv(r) == strip_tv(tv(self)),
    {
        match self.inner() {
            InnerAbstractTree::Expression((e, _)) => AbstractTree::expression(e.stripped(), ()),
            InnerAbstractTree::Statement((s, _)) => AbstractTree::statement(s.stripped(), ()),
        }
    }
}

} // verus!
