use crate::amarok::errors::RuntimeError;
use crate::amarok::span::Span;
use crate::amarok::syntax::{operator_symbol, BinaryOperator};
use crate::text::{push_decimal, signed_decimal, signed_decimal_text};
use vstd::prelude::*;
use vstd::string::StringExecFns;

verus! {

/// A value of a running Amarok program.
#[derive(Debug, PartialEq, Eq)]
pub enum Value {
    Integer(i64),
    String(String),
    Null,
}

/// The mathematical value of a [`Value`].
pub ghost enum ValueModel {
    Integer(i64),
    Text(Seq<char>),
    Null,
}

impl View for Value {
    type V = ValueModel;

    open spec fn view(&self) -> ValueModel {
        match self {
            Value::Integer(value) => ValueModel::Integer(*value),
            Value::String(text) => ValueModel::Text(text@),
            Value::Null => ValueModel::Null,
        }
    }
}

impl Clone for Value {
    fn clone(&self) -> (copy: Self)
        ensures
            copy@ == self@,
    {
        match self {
            Value::Integer(value) => Value::Integer(*value),
            Value::String(text) => Value::String(text.clone()),
            Value::Null => Value::Null,
        }
    }
}

/// A text between double quotes, as the standard library's `Debug` shows a
/// string: with its quotes and backslashes escaped, and its control
/// characters.
pub uninterp spec fn quoted(text: Seq<char>) -> Seq<char>;

/// The standard library's `Debug` for a string slice.
#[verifier::external_body]
fn quote(text: &str) -> (shown: String)
    ensures
        shown@ == quoted(text@),
{
    format!("{:?}", text)
}

/// A value as a programmer sees it: the name of its kind, with its content
/// in parentheses.
pub open spec fn inspected(value: ValueModel) -> Seq<char> {
    match value {
        ValueModel::Integer(number) => "Integer("@ + signed_decimal_text(number as int) + ")"@,
        ValueModel::Text(text) => "String("@ + quoted(text) + ")"@,
        ValueModel::Null => "Null"@,
    }
}

/// A value as a program prints it: a number in decimal, a text as it is,
/// and `null`.
pub open spec fn printed(value: ValueModel) -> Seq<char> {
    match value {
        ValueModel::Integer(number) => signed_decimal_text(number as int),
        ValueModel::Text(text) => text,
        ValueModel::Null => "null"@,
    }
}

/// Whether a value counts as true: a number that is not zero, a text that
/// is not empty.
pub open spec fn truthy(value: ValueModel) -> bool {
    match value {
        ValueModel::Integer(number) => number != 0,
        ValueModel::Text(text) => text.len() != 0,
        ValueModel::Null => false,
    }
}

/// The message for an operation that the operands do not support.
pub open spec fn unsupported_message(
    operator: BinaryOperator,
    left: ValueModel,
    right: ValueModel,
) -> Seq<char> {
    "Unsupported operation: "@ + inspected(left) + " "@ + operator_symbol(operator) + " "@
        + inspected(right)
}

/// The result of an operation: the value, or the message of the error.
/// Sums, differences and products of numbers wrap around in 64 bits. A
/// quotient is rounded towards zero; no number is divided by zero, and the
/// least number is not divided by minus one. Two texts add up to one.
pub open spec fn binary_result(operator: BinaryOperator, left: ValueModel, right: ValueModel) -> Result<
    ValueModel,
    Seq<char>,
> {
    match (operator, left, right) {
        (BinaryOperator::Add, ValueModel::Integer(a), ValueModel::Integer(b)) => Ok(
            ValueModel::Integer(a.wrapping_add(b)),
        ),
        (BinaryOperator::Subtract, ValueModel::Integer(a), ValueModel::Integer(b)) => Ok(
            ValueModel::Integer(a.wrapping_sub(b)),
        ),
        (BinaryOperator::Multiply, ValueModel::Integer(a), ValueModel::Integer(b)) => Ok(
            ValueModel::Integer(a.wrapping_mul(b)),
        ),
        (BinaryOperator::Divide, ValueModel::Integer(a), ValueModel::Integer(b)) => if b == 0 {
            Err("Division by zero."@)
        } else {
            match a.checked_div(b) {
                Some(quotient) => Ok(ValueModel::Integer(quotient)),
                None => Err("Division overflow."@),
            }
        },
        (BinaryOperator::Add, ValueModel::Text(a), ValueModel::Text(b)) => Ok(ValueModel::Text(a + b)),
        _ => Err(unsupported_message(operator, left, right)),
    }
}

/// Appends `value`, as a programmer sees it, to `output`.
fn inspect(value: &Value, output: &mut String)
    ensures
        final(output)@ == old(output)@ + inspected(value@),
{
    match value {
        Value::Integer(number) => {
            output.append("Integer(");
            output.append(signed_decimal(*number).as_str());
            output.append(")");
            assert(output@ =~= old(output)@ + inspected(value@));
        },
        Value::String(text) => {
            output.append("String(");
            output.append(quote(text.as_str()).as_str());
            output.append(")");
            assert(output@ =~= old(output)@ + inspected(value@));
        },
        Value::Null => {
            output.append("Null");
        },
    }
}

/// The error for an operation that the operands do not support.
fn unsupported(operator: BinaryOperator, left: &Value, right: &Value, span: Span) -> (error:
    RuntimeError)
    ensures
        error.message@ == unsupported_message(operator, left@, right@),
        error.span == Some(span),
{
    let mut message = String::from_str("Unsupported operation: ");
    inspect(left, &mut message);
    message.append(" ");
    message.append(operator.symbol());
    message.append(" ");
    inspect(right, &mut message);
    RuntimeError::new(message).with_span(span)
}

/// Applies an operator to two values. An error is reported at `span`.
pub fn evaluate_binary(operator: BinaryOperator, left: Value, right: Value, span: Span) -> (result:
    Result<Value, RuntimeError>)
    ensures
        match binary_result(operator, left@, right@) {
            Ok(value) => result matches Ok(found) && found@ == value,
            Err(message) => result matches Err(error) && error.message@ == message && error.span
                == Some(span),
        },
{
    match (&left, &right) {
        (Value::Integer(a), Value::Integer(b)) => match operator {
            BinaryOperator::Add => Ok(Value::Integer(a.wrapping_add(*b))),
            BinaryOperator::Subtract => Ok(Value::Integer(a.wrapping_sub(*b))),
            BinaryOperator::Multiply => Ok(Value::Integer(a.wrapping_mul(*b))),
            BinaryOperator::Divide => {
                if *b == 0 {
                    Err(RuntimeError::new(String::from_str("Division by zero.")).with_span(span))
                } else {
                    match a.checked_div(*b) {
                        Some(quotient) => Ok(Value::Integer(quotient)),
                        None => Err(
                            RuntimeError::new(String::from_str("Division overflow.")).with_span(
                                span,
                            ),
                        ),
                    }
                }
            },
        },
        (Value::String(a), Value::String(b)) => match operator {
            BinaryOperator::Add => {
                let mut joined = a.clone();
                joined.append(b.as_str());
                Ok(Value::String(joined))
            },
            _ => Err(unsupported(operator, &left, &right, span)),
        },
        _ => Err(unsupported(operator, &left, &right, span)),
    }
}

/// Whether a value counts as true.
pub fn is_truthy(value: &Value) -> (yes: bool)
    ensures
        yes == truthy(value@),
{
    match value {
        Value::Null => false,
        Value::Integer(number) => *number != 0,
        Value::String(text) => !text.as_str().is_empty(),
    }
}

/// A value as a program prints it.
pub fn format_value(value: &Value) -> (text: String)
    ensures
        text@ == printed(value@),
{
    match value {
        Value::Integer(number) => signed_decimal(*number),
        Value::String(text) => text.clone(),
        Value::Null => String::from_str("null"),
    }
}

} // verus!
