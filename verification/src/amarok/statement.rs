use crate::amarok::expression::{Expression, ExpressionModel};
use vstd::prelude::*;

verus! {

/// A statement: an expression to print, or one to evaluate.
#[derive(Debug, PartialEq, Eq)]
pub enum Statement {
    Print(Expression),
    Expression(Expression),
}

/// The mathematical value of a [`Statement`].
pub ghost enum StatementModel {
    Print(ExpressionModel),
    Evaluate(ExpressionModel),
}

impl View for Statement {
    type V = StatementModel;

    open spec fn view(&self) -> StatementModel {
        match self {
            Statement::Print(expression) => StatementModel::Print(expression@),
            Statement::Expression(expression) => StatementModel::Evaluate(expression@),
        }
    }
}

/// The models of a sequence of statements, one for one.
pub open spec fn statement_models(statements: Seq<Statement>) -> Seq<StatementModel> {
    Seq::new(statements.len(), |i: int| statements[i]@)
}

} // verus!
