use crate::amarok::syntax::BinaryOperator;
use vstd::prelude::*;
use vstd::std_specs::iter::IteratorSpec;
use vstd::string::StringExecFns;

verus! {

/// The additive operator that a text spells, or the message of the error.
pub open spec fn add_operator(text: Seq<char>) -> Result<BinaryOperator, Seq<char>> {
    if text == "+"@ {
        Ok(BinaryOperator::Add)
    } else if text == "-"@ {
        Ok(BinaryOperator::Subtract)
    } else {
        Err("Unknown add operator: "@ + text)
    }
}

/// The multiplicative operator that a text spells, or the message of the
/// error.
pub open spec fn multiply_operator(text: Seq<char>) -> Result<BinaryOperator, Seq<char>> {
    if text == "*"@ {
        Ok(BinaryOperator::Multiply)
    } else if text == "/"@ {
        Ok(BinaryOperator::Divide)
    } else {
        Err("Unknown multiply operator: "@ + text)
    }
}

/// Whether an executable result is the one that the rules give.
pub open spec fn operator_agrees(
    result: Result<BinaryOperator, String>,
    outcome: Result<BinaryOperator, Seq<char>>,
) -> bool {
    match outcome {
        Ok(operator) => result == Ok::<BinaryOperator, String>(operator),
        Err(message) => result matches Err(text) && text@ == message,
    }
}

/// Whether `text` spells `literal`.
fn spells(text: &str, literal: &str) -> (yes: bool)
    ensures
        yes == (text@ == literal@),
{
    String::from_str(text) == String::from_str(literal)
}

/// `context`, then `text`.
fn message(context: &str, text: &str) -> (message: String)
    ensures
        message@ == context@ + text@,
{
    let mut message = String::from_str(context);
    message.append(text);
    message
}

/// The additive operator that `text` spells.
pub fn operator_from_add_text(text: &str) -> (result: Result<BinaryOperator, String>)
    ensures
        operator_agrees(result, add_operator(text@)),
{
    if spells(text, "+") {
        Ok(BinaryOperator::Add)
    } else if spells(text, "-") {
        Ok(BinaryOperator::Subtract)
    } else {
        Err(message("Unknown add operator: ", text))
    }
}

/// The multiplicative operator that `text` spells.
pub fn operator_from_multiply_text(text: &str) -> (result: Result<BinaryOperator, String>)
    ensures
        operator_agrees(result, multiply_operator(text@)),
{
    if spells(text, "*") {
        Ok(BinaryOperator::Multiply)
    } else if spells(text, "/") {
        Ok(BinaryOperator::Divide)
    } else {
        Err(message("Unknown multiply operator: ", text))
    }
}

/// The message for a backslash with nothing behind it.
pub open spec fn dangling_backslash_message() -> Seq<char> {
    "String ends with a backslash."@
}

/// The message for a backslash before a character that needs none.
pub open spec fn unsupported_escape_message(escaped: char) -> Seq<char> {
    "Unsupported escape sequence: \\"@.push(escaped) + " (only \\\" and \\\\ supported)"@
}

/// The characters that the inside of a string literal stands for, from
/// `from` on, behind what is `done` already: a backslash before a double
/// quote or a backslash stands for that character, any other character for
/// itself. A backslash before anything else, or at the end, is an error.
pub open spec fn unescaped(content: Seq<char>, from: int, done: Seq<char>) -> Result<
    Seq<char>,
    Seq<char>,
>
    decreases content.len() - from,
{
    if !(0 <= from < content.len()) {
        Ok(done)
    } else if content[from] != '\\' {
        unescaped(content, from + 1, done.push(content[from]))
    } else if from + 1 >= content.len() {
        Err(dangling_backslash_message())
    } else if content[from + 1] == '"' || content[from + 1] == '\\' {
        unescaped(content, from + 2, done.push(content[from + 1]))
    } else {
        Err(unsupported_escape_message(content[from + 1]))
    }
}

/// The text that a string literal stands for, or the message of the
/// error. A literal starts and ends with a double quote, and these are two
/// characters.
pub open spec fn unquoted(text: Seq<char>) -> Result<Seq<char>, Seq<char>> {
    if text.len() < 2 || text.first() != '"' || text.last() != '"' {
        Err("Invalid string literal: "@ + text)
    } else {
        unescaped(text.subrange(1, text.len() - 1), 0, Seq::empty())
    }
}

/// The text that a string literal stands for.
pub fn unquote_string(text: &str) -> (result: Result<String, String>)
    ensures
        match unquoted(text@) {
            Ok(content) => result matches Ok(found) && found@ == content,
            Err(message) => result matches Err(found) && found@ == message,
        },
{
    let mut characters: Vec<char> = Vec::new();
    for character in it: text.chars()
        invariant
            characters@ == it.seq().take(it.index() as int),
            it.seq() == text@,
    {
        characters.push(character);
    }
    let length = characters.len();
    if length < 2 || characters[0] != '"' || characters[length - 1] != '"' {
        return Err(message("Invalid string literal: ", text));
    }
    let ghost content = text@.subrange(1, length - 1);
    let end = length - 1;
    let mut result = String::new();
    let mut index: usize = 1;
    while index < end
        invariant
            1 <= index <= end,
            end == length - 1,
            length == characters@.len(),
            characters@ == text@,
            content == text@.subrange(1, length - 1),
            unquoted(text@) == unescaped(content, 0, Seq::empty()),
            unescaped(content, index - 1, result@) == unescaped(content, 0, Seq::empty()),
        decreases end - index,
    {
        let character = characters[index];
        assert(content[index - 1] == character);
        if character == '\\' {
            if index + 1 >= end {
                return Err(String::from_str("String ends with a backslash."));
            }
            let next = characters[index + 1];
            assert(content[index as int] == next);
            if next == '"' || next == '\\' {
                result.push(next);
                index += 2;
            } else {
                let mut error = String::from_str("Unsupported escape sequence: \\");
                error.push(next);
                error.append(" (only \\\" and \\\\ supported)");
                return Err(error);
            }
        } else {
            result.push(character);
            index += 1;
        }
    }
    Ok(result)
}

} // verus!
