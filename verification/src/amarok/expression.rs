use crate::amarok::token::{Token, TokenModel};
use vstd::prelude::*;

verus! {

/// The value of a literal. A number is kept as it is written.
#[derive(Debug, PartialEq, Eq)]
pub enum LiteralValue {
    Nil,
    Boolean(bool),
    Number(String),
    String(String),
}

/// An expression. Operators and identifiers are kept as their tokens.
#[derive(Debug, PartialEq, Eq)]
pub enum Expression {
    Literal(LiteralValue),
    Grouping(Box<Expression>),
    Unary { operator: Token, right: Box<Expression> },
    Binary { left: Box<Expression>, operator: Token, right: Box<Expression> },
    Identifier(Token),
}

/// The mathematical value of a [`LiteralValue`].
pub ghost enum LiteralModel {
    Nil,
    Boolean(bool),
    Number(Seq<char>),
    Text(Seq<char>),
}

/// The mathematical value of an [`Expression`].
pub ghost enum ExpressionModel {
    Literal(LiteralModel),
    Grouping(Box<ExpressionModel>),
    Unary { operator: TokenModel, right: Box<ExpressionModel> },
    Binary { left: Box<ExpressionModel>, operator: TokenModel, right: Box<ExpressionModel> },
    Identifier(TokenModel),
}

impl View for LiteralValue {
    type V = LiteralModel;

    open spec fn view(&self) -> LiteralModel {
        match self {
            LiteralValue::Nil => LiteralModel::Nil,
            LiteralValue::Boolean(value) => LiteralModel::Boolean(*value),
            LiteralValue::Number(text) => LiteralModel::Number(text@),
            LiteralValue::String(text) => LiteralModel::Text(text@),
        }
    }
}

/// The model of an expression.
pub open spec fn expression_model(expression: Expression) -> ExpressionModel
    decreases expression,
{
    match expression {
        Expression::Literal(value) => ExpressionModel::Literal(value@),
        Expression::Grouping(inner) => ExpressionModel::Grouping(Box::new(expression_model(*inner))),
        Expression::Unary { operator, right } => ExpressionModel::Unary {
            operator: operator@,
            right: Box::new(expression_model(*right)),
        },
        Expression::Binary { left, operator, right } => ExpressionModel::Binary {
            left: Box::new(expression_model(*left)),
            operator: operator@,
            right: Box::new(expression_model(*right)),
        },
        Expression::Identifier(token) => ExpressionModel::Identifier(token@),
    }
}

impl View for Expression {
    type V = ExpressionModel;

    open spec fn view(&self) -> ExpressionModel {
        expression_model(*self)
    }
}

impl Expression {
    /// The name of the kind of the expression.
    pub fn kind_name(&self) -> (name: &'static str)
        ensures
            name@ == match self {
                Expression::Literal(_) => "Literal"@,
                Expression::Grouping(_) => "Grouping"@,
                Expression::Unary { .. } => "Unary"@,
                Expression::Binary { .. } => "Binary"@,
                Expression::Identifier(_) => "Identifier"@,
            },
    {
        match self {
            Expression::Literal(_) => "Literal",
            Expression::Grouping(_) => "Grouping",
            Expression::Unary { .. } => "Unary",
            Expression::Binary { .. } => "Binary",
            Expression::Identifier(_) => "Identifier",
        }
    }
}

} // verus!
