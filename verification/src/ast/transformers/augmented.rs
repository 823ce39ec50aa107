//! A tree of expressions and statements that carries information of type `T`
//! at each node, made of arithmetic, literals and sequences only.

use vstd::prelude::*;
use crate::lexer::token::Token;
use crate::parser::Identifier;

verus! {

/// An expression of the tree.
#[derive(Debug)]
pub enum AugmentedExpression<T> {
    Binary { left: Box<AugmentedExpression<T>>, operator: Token, right: Box<AugmentedExpression<T>>, information: T },
    Unary { operator: Token, right: Box<AugmentedExpression<T>>, information: T },
    Literal { literal: Token, information: T },
    Sequence { seq: Vec<AugmentedExpression<T>>, information: T },
}

/// A statement of the tree.
#[derive(Debug)]
pub enum AugmentedStatement<T> {
    ExpressionStatement { expression: AugmentedExpression<T>, information: T },
    PrintStatement { expression: AugmentedExpression<T>, information: T },
    VarStatement { ident: Identifier, init: AugmentedExpression<T>, information: T },
}

/// The top of the tree: an expression or a statement, with information.
#[derive(Debug)]
pub enum AugmentedInner<T> {
    Expression((AugmentedExpression<T>, T)),
    Statement((AugmentedStatement<T>, T)),
}

/// A unit of the tree.
#[derive(Debug)]
pub struct AugmentedAbstractTree<T> {
    inner: AugmentedInner<T>,
}

/// The information of an expression.
pub open spec fn augmented_expr_info<T>(e: AugmentedExpression<T>) -> T {
    match e {
        AugmentedExpression::Binary { information, .. } => information,
        AugmentedExpression::Unary { information, .. } => information,
        AugmentedExpression::Literal { information, .. } => information,
        AugmentedExpression::Sequence { information, .. } => information,
    }
}

/// The information of a statement.
pub open spec fn augmented_stmt_info<T>(s: AugmentedStatement<T>) -> T {
    match s {
        AugmentedStatement::ExpressionStatement { information, .. } => information,
        AugmentedStatement::PrintStatement { information, .. } => information,
        AugmentedStatement::VarStatement { information, .. } => information,
    }
}

impl<T> AugmentedAbstractTree<T> {
    pub closed spec fn view_inner(&self) -> AugmentedInner<T> {
        self.inner
    }

    pub fn expression(expression: AugmentedExpression<T>, information: T) -> (r: AugmentedAbstractTree<T>)
        ensures
            r.view_inner() == AugmentedInner::Expression((expression, information)),
    {
        AugmentedAbstractTree { inner: AugmentedInner::Expression((expression, information)) }
    }

    pub fn statement(statement: AugmentedStatement<T>, information: T) -> (r: AugmentedAbstractTree<T>)
        ensures
            r.view_inner() == AugmentedInner::Statement((statement, information)),
    {
        AugmentedAbstractTree { inner: AugmentedInner::Statement((statement, information)) }
    }

    pub fn inner(&self) -> (r: &AugmentedInner<T>)
        ensures
            *r == self.view_inner(),
    {
        &self.inner
    }
}

impl<T> AugmentedExpression<T> {
    pub fn information(&self) -> (r: &T)
        ensures
            *r == augmented_expr_info(*self),
    {
        match self {
            AugmentedExpression::Binary { information, .. } => information,
            AugmentedExpression::Unary { information, .. } => information,
            AugmentedExpression::Literal { information, .. } => information,
            AugmentedExpression::Sequence { information, .. } => information,
        }
    }
}

impl<T> AugmentedStatement<T> {
    pub fn information(&self) -> (r: &T)
        ensures
            *r == augmented_stmt_info(*self),
    {
        match self {
            AugmentedStatement::ExpressionStatement { information, .. } => information,
            AugmentedStatement::PrintStatement { information, .. } => information,
            AugmentedStatement::VarStatement { information, .. } => information,
        }
    }
}

} // verus!
