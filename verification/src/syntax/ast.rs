use vstd::prelude::*;

verus! {

/// The four arithmetic operators.
#[derive(Debug, Clone, Copy, PartialEq, Eq, Structural)]
pub enum BinaryOperator {
    Add,
    Subtract,
    Multiply,
    Divide,
}

/// An expression. The operands of an operation are owned by it: an
/// expression is a tree.
#[derive(Debug, PartialEq, Eq)]
pub enum ExpressionNode {
    NumberLiteral { value: i64 },
    IdentifierReference { name: String },
    BinaryOperation { operator: BinaryOperator, left: Box<ExpressionNode>, right: Box<ExpressionNode> },
}

/// A statement: an expression evaluated for its value, or the declaration
/// of a variable with its initial value.
#[derive(Debug, PartialEq, Eq)]
pub enum StatementNode {
    ExpressionStatement { expression: ExpressionNode },
    VariableDeclaration { name: String, value: ExpressionNode },
}

/// A program: its statements in the order in which they run.
#[derive(Debug, PartialEq, Eq)]
pub struct ProgramNode {
    pub statements: Vec<StatementNode>,
}

/// The mathematical value of an [`ExpressionNode`].
pub ghost enum Expression {
    Number { value: i64 },
    Identifier { name: Seq<char> },
    Binary { operator: BinaryOperator, left: Box<Expression>, right: Box<Expression> },
}

/// The mathematical value of a [`StatementNode`].
pub ghost enum Statement {
    Evaluate { expression: Expression },
    Declare { name: Seq<char>, value: Expression },
}

/// The model of an expression: numbers as they are, names as sequences of
/// characters, operands by their own models.
pub open spec fn expression_model(node: ExpressionNode) -> Expression
    decreases node,
{
    match node {
        ExpressionNode::NumberLiteral { value } => Expression::Number { value },
        ExpressionNode::IdentifierReference { name } => Expression::Identifier { name: name@ },
        ExpressionNode::BinaryOperation { operator, left, right } => Expression::Binary {
            operator,
            left: Box::new(expression_model(*left)),
            right: Box::new(expression_model(*right)),
        },
    }
}

impl View for ExpressionNode {
    type V = Expression;

    open spec fn view(&self) -> Expression {
        expression_model(*self)
    }
}

impl View for StatementNode {
    type V = Statement;

    open spec fn view(&self) -> Statement {
        match self {
            StatementNode::ExpressionStatement { expression } => Statement::Evaluate {
                expression: expression@,
            },
            StatementNode::VariableDeclaration { name, value } => Statement::Declare {
                name: name@,
                value: value@,
            },
        }
    }
}

impl View for ProgramNode {
    type V = Seq<Statement>;

    open spec fn view(&self) -> Seq<Statement> {
        statement_models(self.statements@)
    }
}

/// The models of a sequence of statements, one for one.
pub open spec fn statement_models(statements: Seq<StatementNode>) -> Seq<Statement> {
    Seq::new(statements.len(), |i: int| statements[i]@)
}

/// A copy of an expression, equal to it as a model.
fn copy_expression(node: &ExpressionNode) -> (copy: ExpressionNode)
    ensures
        copy@ == node@,
    decreases node,
{
    match node {
        ExpressionNode::NumberLiteral { value } => ExpressionNode::NumberLiteral { value: *value },
        ExpressionNode::IdentifierReference { name } => ExpressionNode::IdentifierReference {
            name: name.clone(),
        },
        ExpressionNode::BinaryOperation { operator, left, right } => {
            ExpressionNode::BinaryOperation {
                operator: *operator,
                left: Box::new(copy_expression(left)),
                right: Box::new(copy_expression(right)),
            }
        },
    }
}

impl Clone for ExpressionNode {
    fn clone(&self) -> (copy: Self)
        ensures
            copy@ == self@,
    {
        copy_expression(self)
    }
}

impl Clone for StatementNode {
    fn clone(&self) -> (copy: Self)
        ensures
            copy@ == self@,
    {
        match self {
            StatementNode::ExpressionStatement { expression } => StatementNode::ExpressionStatement {
                expression: expression.clone(),
            },
            StatementNode::VariableDeclaration { name, value } => StatementNode::VariableDeclaration {
                name: name.clone(),
                value: value.clone(),
            },
        }
    }
}

impl Clone for ProgramNode {
    fn clone(&self) -> (copy: Self)
        ensures
            copy@ == self@,
    {
        let mut statements: Vec<StatementNode> = Vec::new();
        let mut index: usize = 0;
        while index < self.statements.len()
            invariant
                index <= self.statements.len(),
                statements.len() == index,
                forall|i: int| 0 <= i < index ==> (#[trigger] statements[i])@ == self.statements[i]@,
            decreases self.statements.len() - index,
        {
            statements.push(self.statements[index].clone());
            index += 1;
        }
        let copy = ProgramNode { statements };
        assert(copy@ =~= self@);
        copy
    }
}

} // verus!
