use crate::syntax::ast::{
    BinaryOperator, Expression, ExpressionNode, ProgramNode, Statement, StatementNode,
};
use crate::text::{push_decimal, signed_decimal_text};
use vstd::prelude::*;
use vstd::string::StringExecFns;

verus! {

/// Two spaces for each level of indentation.
pub open spec fn indentation(level: nat) -> Seq<char>
    decreases level,
{
    if level == 0 {
        Seq::empty()
    } else {
        indentation((level - 1) as nat) + "  "@
    }
}

/// The level of what stands below `level`: one more, as long as the
/// machine can count it.
pub open spec fn below(level: usize) -> usize {
    if level < usize::MAX {
        (level + 1) as usize
    } else {
        level
    }
}

/// The name of an operator.
pub open spec fn operator_name(operator: BinaryOperator) -> Seq<char> {
    match operator {
        BinaryOperator::Add => "Add"@,
        BinaryOperator::Subtract => "Subtract"@,
        BinaryOperator::Multiply => "Multiply"@,
        BinaryOperator::Divide => "Divide"@,
    }
}

/// An expression as an indented outline: one line for the node, then its
/// operands one level below, the left one first.
pub open spec fn expression_outline(expression: Expression, level: usize) -> Seq<char>
    decreases expression,
{
    match expression {
        Expression::Number { value } => indentation(level as nat) + "NumberLiteral("@
            + signed_decimal_text(value as int) + ")\n"@,
        Expression::Identifier { name } => indentation(level as nat) + "IdentifierReference("@
            + name + ")\n"@,
        Expression::Binary { operator, left, right } => indentation(level as nat)
            + "BinaryOperation("@ + operator_name(operator) + ")\n"@ + expression_outline(
            *left,
            below(level),
        ) + expression_outline(*right, below(level)),
    }
}

/// A statement as an indented outline: one line for the statement, then
/// its expression one level below.
pub open spec fn statement_outline(statement: Statement, level: usize) -> Seq<char> {
    match statement {
        Statement::Evaluate { expression } => indentation(level as nat) + "ExpressionStatement\n"@
            + expression_outline(expression, below(level)),
        Statement::Declare { name, value } => indentation(level as nat)
            + "VariableDeclaration(name="@ + name + ")\n"@ + expression_outline(
            value,
            below(level),
        ),
    }
}

/// The outlines of a list of statements, one after the other.
pub open spec fn statements_outline(statements: Seq<Statement>, level: usize) -> Seq<char>
    decreases statements.len(),
{
    if statements.len() == 0 {
        Seq::empty()
    } else {
        statements_outline(statements.drop_last(), level) + statement_outline(
            statements.last(),
            level,
        )
    }
}

/// A program as an indented outline: one line for the program, then its
/// statements one level below.
pub open spec fn program_outline(statements: Seq<Statement>, level: usize) -> Seq<char> {
    indentation(level as nat) + "Program\n"@ + statements_outline(statements, below(level))
}

/// A node of the syntax tree that can be written out as an indented
/// outline, for a person who wants to see what was parsed.
pub trait AstDisplay {
    /// The outline of the node at a level of indentation.
    spec fn outline(&self, level: usize) -> Seq<char>;

    /// Appends the outline of the node to `output`.
    fn write_ast(&self, indent: usize, output: &mut String)
        ensures
            final(output)@ == old(output)@ + self.outline(indent),
    ;

    /// The indentation of a level.
    fn indent(indent: usize) -> (text: String)
        ensures
            text@ == indentation(indent as nat),
    {
        let mut text = String::new();
        write_indent(indent, &mut text);
        assert(Seq::<char>::empty() + indentation(indent as nat) =~= indentation(indent as nat));
        text
    }

    /// The outline of the node at the outermost level.
    fn to_ast_string(&self) -> (text: String)
        ensures
            text@ == self.outline(0),
    {
        let mut output = String::new();
        self.write_ast(0, &mut output);
        assert(Seq::<char>::empty() + self.outline(0) =~= self.outline(0));
        output
    }
}

/// Appends the indentation of `level` to `output`.
pub fn write_indent(level: usize, output: &mut String)
    ensures
        final(output)@ == old(output)@ + indentation(level as nat),
{
    let mut written: usize = 0;
    assert(old(output)@ + indentation(0) =~= old(output)@);
    while written < level
        invariant
            written <= level,
            output@ == old(output)@ + indentation(written as nat),
        decreases level - written,
    {
        output.append("  ");
        written += 1;
        assert(old(output)@ + indentation((written - 1) as nat) + "  "@ =~= old(output)@
            + indentation(written as nat));
    }
}

/// The level of what stands below `level`.
fn next_level(level: usize) -> (next: usize)
    ensures
        next == below(level),
{
    if level < usize::MAX {
        level + 1
    } else {
        level
    }
}

/// The name of an operator.
fn name_of(operator: BinaryOperator) -> (name: &'static str)
    ensures
        name@ == operator_name(operator),
{
    match operator {
        BinaryOperator::Add => "Add",
        BinaryOperator::Subtract => "Subtract",
        BinaryOperator::Multiply => "Multiply",
        BinaryOperator::Divide => "Divide",
    }
}

/// Appends `number` in decimal, with its sign, to `output`.
fn write_number(number: i64, output: &mut String)
    ensures
        final(output)@ == old(output)@ + signed_decimal_text(number as int),
{
    if number < 0 {
        output.push('-');
        let magnitude: u64 = if number == i64::MIN {
            0x8000_0000_0000_0000u64
        } else {
            (-number) as u64
        };
        push_decimal(output, magnitude);
        assert(output@ =~= old(output)@ + signed_decimal_text(number as int));
    } else {
        push_decimal(output, number as u64);
    }
}

/// Appends the outline of `expression` to `output`.
fn write_expression(expression: &ExpressionNode, indent: usize, output: &mut String)
    ensures
        final(output)@ == old(output)@ + expression_outline(expression@, indent),
    decreases expression,
{
    write_indent(indent, output);
    match expression {
        ExpressionNode::NumberLiteral { value } => {
            output.append("NumberLiteral(");
            write_number(*value, output);
            output.append(")\n");
            assert(output@ =~= old(output)@ + expression_outline(expression@, indent));
        },
        ExpressionNode::IdentifierReference { name } => {
            output.append("IdentifierReference(");
            output.append(name.as_str());
            output.append(")\n");
            assert(output@ =~= old(output)@ + expression_outline(expression@, indent));
        },
        ExpressionNode::BinaryOperation { operator, left, right } => {
            output.append("BinaryOperation(");
            output.append(name_of(*operator));
            output.append(")\n");
            write_expression(left, next_level(indent), output);
            write_expression(right, next_level(indent), output);
            assert(output@ =~= old(output)@ + expression_outline(expression@, indent));
        },
    }
}

impl AstDisplay for ExpressionNode {
    open spec fn outline(&self, level: usize) -> Seq<char> {
        expression_outline(self@, level)
    }

    fn write_ast(&self, indent: usize, output: &mut String) {
        write_expression(self, indent, output)
    }
}

impl AstDisplay for StatementNode {
    open spec fn outline(&self, level: usize) -> Seq<char> {
        statement_outline(self@, level)
    }

    fn write_ast(&self, indent: usize, output: &mut String) {
        write_indent(indent, output);
        match self {
            StatementNode::ExpressionStatement { expression } => {
                output.append("ExpressionStatement\n");
                write_expression(expression, next_level(indent), output);
                assert(output@ =~= old(output)@ + statement_outline(self@, indent));
            },
            StatementNode::VariableDeclaration { name, value } => {
                output.append("VariableDeclaration(name=");
                output.append(name.as_str());
                output.append(")\n");
                write_expression(value, next_level(indent), output);
                assert(output@ =~= old(output)@ + statement_outline(self@, indent));
            },
        }
    }
}

impl AstDisplay for ProgramNode {
    open spec fn outline(&self, level: usize) -> Seq<char> {
        program_outline(self@, level)
    }

    fn write_ast(&self, indent: usize, output: &mut String) {
        write_indent(indent, output);
        output.append("Program\n");
        let ghost head = output@;
        let mut index: usize = 0;
        assert(self@.take(0) =~= Seq::<Statement>::empty());
        assert(head + statements_outline(self@.take(0), below(indent)) =~= head);
        while index < self.statements.len()
            invariant
                index <= self.statements.len(),
                output@ == head + statements_outline(self@.take(index as int), below(indent)),
            decreases self.statements.len() - index,
        {
            let ghost before = output@;
            self.statements[index].write_ast(next_level(indent), output);
            proof {
                let taken = self@.take(index as int + 1);
                assert(taken.drop_last() =~= self@.take(index as int));
                assert(taken.last() == self.statements[index as int]@);
                assert(output@ =~= head + statements_outline(taken, below(indent)));
            }
            index += 1;
        }
        assert(self@.take(index as int) =~= self@);
        assert(output@ =~= old(output)@ + program_outline(self@, indent));
    }
}

} // verus!
