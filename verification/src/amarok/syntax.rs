use crate::amarok::span::{Span, Spanned};
use vstd::prelude::*;

verus! {

/// The binary operators of Amarok.
#[derive(Debug, Clone, Copy, PartialEq, Eq, Structural)]
pub enum BinaryOperator {
    Add,
    Subtract,
    Multiply,
    Divide,
}

/// The symbol of an operator.
pub open spec fn operator_symbol(operator: BinaryOperator) -> Seq<char> {
    match operator {
        BinaryOperator::Add => "+"@,
        BinaryOperator::Subtract => "-"@,
        BinaryOperator::Multiply => "*"@,
        BinaryOperator::Divide => "/"@,
    }
}

impl BinaryOperator {
    /// The symbol of the operator, as it is written in a program.
    pub fn symbol(&self) -> (symbol: &'static str)
        ensures
            symbol@ == operator_symbol(*self),
    {
        match self {
            BinaryOperator::Add => "+",
            BinaryOperator::Subtract => "-",
            BinaryOperator::Multiply => "*",
            BinaryOperator::Divide => "/",
        }
    }
}

/// An expression of Amarok, with the place of each of its parts.
#[derive(Debug, PartialEq)]
pub enum Expression {
    Integer(i64),
    String(String),
    Variable(String),
    Binary { left: Box<Spanned<Expression>>, operator: BinaryOperator, right: Box<Spanned<Expression>> },
    FunctionCall { name: String, arguments: Vec<Spanned<Expression>> },
}

/// The mathematical value of an [`Expression`].
pub ghost enum ExpressionModel {
    Integer(i64),
    Text(Seq<char>),
    Variable(Seq<char>),
    Binary { left: Box<PlacedExpression>, operator: BinaryOperator, right: Box<PlacedExpression> },
    Call { name: Seq<char>, arguments: Seq<PlacedExpression> },
}

/// The mathematical value of an expression with its place.
pub ghost struct PlacedExpression {
    pub span: Span,
    pub value: ExpressionModel,
}

/// The model of an expression with its place.
pub open spec fn expression_model(expression: Spanned<Expression>) -> PlacedExpression
    decreases expression,
{
    PlacedExpression {
        span: expression.span,
        value: match expression.value {
            Expression::Integer(value) => ExpressionModel::Integer(value),
            Expression::String(text) => ExpressionModel::Text(text@),
            Expression::Variable(name) => ExpressionModel::Variable(name@),
            Expression::Binary { left, operator, right } => ExpressionModel::Binary {
                left: Box::new(expression_model(*left)),
                operator,
                right: Box::new(expression_model(*right)),
            },
            Expression::FunctionCall { name, arguments } => ExpressionModel::Call {
                name: name@,
                arguments: Seq::new(
                    arguments@.len(),
                    |i: int|
                        if 0 <= i < arguments@.len() {
                            expression_model(arguments@[i])
                        } else {
                            arbitrary()
                        },
                ),
            },
        },
    }
}

/// A statement of Amarok, with the place of each of its parts.
#[derive(Debug, PartialEq)]
#[allow(inconsistent_fields)]
pub enum Statement {
    Assignment { name: String, value: Spanned<Expression> },
    Expression { expression: Spanned<Expression> },
    Block { statements: Vec<Spanned<Statement>> },
    If {
        condition: Spanned<Expression>,
        then_branch: Vec<Spanned<Statement>>,
        else_branch: Vec<Spanned<Statement>>,
    },
    While { condition: Spanned<Expression>, body: Vec<Spanned<Statement>> },
    FunctionDefinition { name: String, parameters: Vec<String>, body: Vec<Spanned<Statement>> },
    Return { value: Option<Spanned<Expression>> },
}

/// The mathematical value of a [`Statement`].
pub ghost enum StatementModel {
    Assignment { name: Seq<char>, value: PlacedExpression },
    Evaluate { expression: PlacedExpression },
    Block { statements: Seq<PlacedStatement> },
    If {
        condition: PlacedExpression,
        then_branch: Seq<PlacedStatement>,
        else_branch: Seq<PlacedStatement>,
    },
    While { condition: PlacedExpression, body: Seq<PlacedStatement> },
    FunctionDefinition { name: Seq<char>, parameters: Seq<Seq<char>>, body: Seq<PlacedStatement> },
    Return { result: Option<PlacedExpression> },
}

/// The mathematical value of a statement with its place.
pub ghost struct PlacedStatement {
    pub span: Span,
    pub value: StatementModel,
}

/// The texts of a list of names.
pub open spec fn name_texts(names: Seq<String>) -> Seq<Seq<char>> {
    Seq::new(names.len(), |i: int| names[i]@)
}

/// The models of a list of expressions, one for one.
pub open spec fn expression_models(expressions: Seq<Spanned<Expression>>) -> Seq<PlacedExpression> {
    Seq::new(expressions.len(), |i: int| expression_model(expressions[i]))
}

/// The model of a statement with its place.
pub open spec fn statement_model(statement: Spanned<Statement>) -> PlacedStatement
    decreases statement,
{
    PlacedStatement {
        span: statement.span,
        value: match statement.value {
            Statement::Assignment { name, value } => StatementModel::Assignment {
                name: name@,
                value: expression_model(value),
            },
            Statement::Expression { expression } => StatementModel::Evaluate {
                expression: expression_model(expression),
            },
            Statement::Block { statements } => StatementModel::Block {
                statements: Seq::new(
                    statements@.len(),
                    |i: int|
                        if 0 <= i < statements@.len() {
                            statement_model(statements@[i])
                        } else {
                            arbitrary()
                        },
                ),
            },
            Statement::If { condition, then_branch, else_branch } => StatementModel::If {
                condition: expression_model(condition),
                then_branch: Seq::new(
                    then_branch@.len(),
                    |i: int|
                        if 0 <= i < then_branch@.len() {
                            statement_model(then_branch@[i])
                        } else {
                            arbitrary()
                        },
                ),
                else_branch: Seq::new(
                    else_branch@.len(),
                    |i: int|
                        if 0 <= i < else_branch@.len() {
                            statement_model(else_branch@[i])
                        } else {
                            arbitrary()
                        },
                ),
            },
            Statement::While { condition, body } => StatementModel::While {
                condition: expression_model(condition),
                body: Seq::new(
                    body@.len(),
                    |i: int|
                        if 0 <= i < body@.len() {
                            statement_model(body@[i])
                        } else {
                            arbitrary()
                        },
                ),
            },
            Statement::FunctionDefinition { name, parameters, body } => {
                StatementModel::FunctionDefinition {
                    name: name@,
                    parameters: name_texts(parameters@),
                    body: Seq::new(
                        body@.len(),
                        |i: int|
                            if 0 <= i < body@.len() {
                                statement_model(body@[i])
                            } else {
                                arbitrary()
                            },
                    ),
                }
            },
            Statement::Return { value } => StatementModel::Return {
                result: match value {
                    Some(expression) => Some(expression_model(expression)),
                    None => None,
                },
            },
        },
    }
}

/// The models of a list of statements, one for one.
pub open spec fn statement_models(statements: Seq<Spanned<Statement>>) -> Seq<PlacedStatement> {
    Seq::new(statements.len(), |i: int| statement_model(statements[i]))
}

impl View for Program {
    type V = Seq<PlacedStatement>;

    open spec fn view(&self) -> Seq<PlacedStatement> {
        statement_models(self.statements@)
    }
}

/// A copy of a list of names.
pub fn copy_names(names: &Vec<String>) -> (copy: Vec<String>)
    ensures
        name_texts(copy@) == name_texts(names@),
{
    let mut copy: Vec<String> = Vec::new();
    let mut index: usize = 0;
    while index < names.len()
        invariant
            index <= names.len(),
            copy.len() == index,
            forall|i: int| 0 <= i < index ==> (#[trigger] copy[i])@ == names[i]@,
        decreases names.len() - index,
    {
        copy.push(names[index].clone());
        index += 1;
    }
    assert(name_texts(copy@) =~= name_texts(names@));
    copy
}

/// A copy of an expression, equal to it as a model.
#[verifier::loop_isolation(false)]
pub fn copy_expression(expression: &Spanned<Expression>) -> (copy: Spanned<Expression>)
    ensures
        expression_model(copy) == expression_model(*expression),
    decreases expression,
{
    let value = match &expression.value {
        Expression::Integer(value) => Expression::Integer(*value),
        Expression::String(text) => Expression::String(text.clone()),
        Expression::Variable(name) => Expression::Variable(name.clone()),
        Expression::Binary { left, operator, right } => Expression::Binary {
            left: Box::new(copy_expression(left)),
            operator: *operator,
            right: Box::new(copy_expression(right)),
        },
        Expression::FunctionCall { name, arguments } => {
            let mut copies: Vec<Spanned<Expression>> = Vec::new();
            let mut index: usize = 0;
            while index < arguments.len()
                invariant
                    index <= arguments.len(),
                    copies.len() == index,
                    forall|i: int|
                        0 <= i < index ==> expression_model(#[trigger] copies[i])
                            == expression_model(arguments[i]),
                decreases arguments.len() - index,
            {
                copies.push(copy_expression(&arguments[index]));
                index += 1;
            }
            let copy = Expression::FunctionCall { name: name.clone(), arguments: copies };
            proof {
                let made = expression_model(Spanned { span: expression.span, value: copy });
                let wanted = expression_model(*expression);
                assert(made.value->Call_arguments =~= wanted.value->Call_arguments);
            }
            copy
        },
    };
    Spanned { span: expression.span, value }
}

/// A copy of a list of statements, equal to it as a model.
#[verifier::loop_isolation(false)]
pub fn copy_statements(statements: &Vec<Spanned<Statement>>) -> (copy: Vec<Spanned<Statement>>)
    ensures
        statement_models(copy@) == statement_models(statements@),
    decreases statements,
{
    let mut copy: Vec<Spanned<Statement>> = Vec::new();
    let mut index: usize = 0;
    while index < statements.len()
        invariant
            index <= statements.len(),
            copy.len() == index,
            forall|i: int|
                0 <= i < index ==> statement_model(#[trigger] copy[i]) == statement_model(
                    statements[i],
                ),
        decreases statements.len() - index,
    {
        copy.push(copy_statement(&statements[index]));
        index += 1;
    }
    assert(statement_models(copy@) =~= statement_models(statements@));
    copy
}

/// A copy of a statement, equal to it as a model.
pub fn copy_statement(statement: &Spanned<Statement>) -> (copy: Spanned<Statement>)
    ensures
        statement_model(copy) == statement_model(*statement),
    decreases statement,
{
    let value = match &statement.value {
        Statement::Assignment { name, value } => Statement::Assignment {
            name: name.clone(),
            value: copy_expression(value),
        },
        Statement::Expression { expression } => Statement::Expression {
            expression: copy_expression(expression),
        },
        Statement::Block { statements } => {
            let copies = copy_statements(statements);
            let copy = Statement::Block { statements: copies };
            proof {
                let made = statement_model(Spanned { span: statement.span, value: copy });
                let wanted = statement_model(*statement);
                assert(made.value->Block_statements =~= statement_models(copies@));
                assert(wanted.value->Block_statements =~= statement_models(statements@));
            }
            copy
        },
        Statement::If { condition, then_branch, else_branch } => {
            let then_copies = copy_statements(then_branch);
            let else_copies = copy_statements(else_branch);
            let copy = Statement::If {
                condition: copy_expression(condition),
                then_branch: then_copies,
                else_branch: else_copies,
            };
            proof {
                let made = statement_model(Spanned { span: statement.span, value: copy });
                let wanted = statement_model(*statement);
                assert(made.value->then_branch =~= statement_models(then_copies@));
                assert(wanted.value->then_branch =~= statement_models(then_branch@));
                assert(made.value->else_branch =~= statement_models(else_copies@));
                assert(wanted.value->else_branch =~= statement_models(else_branch@));
            }
            copy
        },
        Statement::While { condition, body } => {
            let copies = copy_statements(body);
            let copy = Statement::While { condition: copy_expression(condition), body: copies };
            proof {
                let made = statement_model(Spanned { span: statement.span, value: copy });
                let wanted = statement_model(*statement);
                assert(made.value->While_body =~= statement_models(copies@));
                assert(wanted.value->While_body =~= statement_models(body@));
            }
            copy
        },
        Statement::FunctionDefinition { name, parameters, body } => {
            let copies = copy_statements(body);
            let copy = Statement::FunctionDefinition {
                name: name.clone(),
                parameters: copy_names(parameters),
                body: copies,
            };
            proof {
                let made = statement_model(Spanned { span: statement.span, value: copy });
                let wanted = statement_model(*statement);
                assert(made.value->FunctionDefinition_body =~= statement_models(copies@));
                assert(wanted.value->FunctionDefinition_body =~= statement_models(body@));
            }
            copy
        },
        Statement::Return { value } => Statement::Return {
            value: match value {
                Some(expression) => Some(copy_expression(expression)),
                None => None,
            },
        },
    };
    Spanned { span: statement.span, value }
}

/// A program of Amarok: its statements in the order in which they run.
#[derive(Debug, PartialEq)]
pub struct Program {
    pub statements: Vec<Spanned<Statement>>,
}

} // verus!
