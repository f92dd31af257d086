use crate::amarok::errors::{ParseError, RuntimeError};
use crate::amarok::span::Span;
use crate::text::{
    byte_count, byte_offset, column_at, decimal_text, lemma_byte_offset, lemma_position_bounds,
    line_at, push_decimal,
};
use vstd::prelude::*;
use vstd::std_specs::iter::IteratorSpec;
use vstd::string::StringExecFns;
use vstd::utf8::encode_utf8;

verus! {

/// The index of the first character, at or after `from`, that does not
/// start before the byte at `offset`; the length of the source where every
/// character does.
pub open spec fn reached(source: Seq<char>, offset: nat, from: int) -> int
    decreases source.len() - from,
{
    if 0 <= from < source.len() && byte_offset(source, from) < offset {
        reached(source, offset, from + 1)
    } else {
        from
    }
}

/// The line and the column, both counted from one, of the byte at
/// `offset`: those of the first character that does not start before it.
pub open spec fn line_col(source: Seq<char>, offset: nat) -> (nat, nat) {
    let index = reached(source, offset, 0);
    (line_at(source, index), column_at(source, index))
}

/// The line `target`, found from `from` on, where `from` stands on line
/// `current`, which starts at `start`: the indices of its first character
/// and of the newline that ends it, or of the end of the source. There is
/// none where the source has fewer lines.
pub open spec fn line_span(source: Seq<char>, target: nat, from: int, current: nat, start: int) -> Option<
    (int, int),
>
    decreases source.len() - from,
{
    if !(0 <= from < source.len()) {
        if current == target {
            Some((start, source.len() as int))
        } else {
            None
        }
    } else if source[from] == '\n' {
        if current == target {
            Some((start, from))
        } else {
            line_span(source, target, from + 1, current + 1, from + 1)
        }
    } else {
        line_span(source, target, from + 1, current, start)
    }
}

/// The line `target` of a source, lines counted from one.
pub open spec fn line_of(source: Seq<char>, target: nat) -> Option<(int, int)> {
    line_span(source, target, 0, 1, 0)
}

/// The line and the column of the byte at `offset` of `source`.
pub fn line_col_from_offset(source: &str, offset: usize) -> (position: (usize, usize))
    ensures
        position.0 == line_col(source@, offset as nat).0,
        position.1 == line_col(source@, offset as nat).1,
{
    let total = byte_count(source);
    let mut line: usize = 1;
    let mut col: usize = 1;
    let mut index: usize = 0;
    let mut stopped = false;
    for character in it: source.chars()
        invariant
            it.seq() == source@,
            source@.len() < usize::MAX,
            total == encode_utf8(source@).len(),
            !stopped ==> index == byte_offset(source@, it.index() as int) && reached(
                source@,
                offset as nat,
                it.index() as int,
            ) == reached(source@, offset as nat, 0),
            !stopped ==> line == line_at(source@, it.index() as int) && col == column_at(
                source@,
                it.index() as int,
            ),
            stopped ==> line == line_col(source@, offset as nat).0 && col == line_col(
                source@,
                offset as nat,
            ).1,
    {
        if !stopped {
            if index >= offset {
                stopped = true;
            } else {
                proof {
                    lemma_position_bounds(source@, it.index() as int);
                    lemma_byte_offset(source@, it.index() as int + 1);
                }
                if character == '\n' {
                    line += 1;
                    col = 1;
                } else {
                    col += 1;
                }
                index += character.len_utf8();
            }
        }
    }
    (line, col)
}

/// The text of the line `line_number` of `source`, without the newline
/// that ends it, and the number of bytes before it; nothing where the
/// source has no such line.
pub fn line_text_and_line_start(source: &str, line_number: usize) -> (result: Option<(&str, usize)>)
    ensures
        match line_of(source@, line_number as nat) {
            Some((start, end)) => result matches Some((text, offset)) && 0 <= start <= end
                <= source@.len() && text@ == source@.subrange(start, end) && offset == byte_offset(
                source@,
                start,
            ),
            None => result is None,
        },
{
    let total = byte_count(source);
    let mut current_line: usize = 1;
    let mut start_character: usize = 0;
    let mut start_byte: usize = 0;
    let mut index_character: usize = 0;
    let mut index_byte: usize = 0;
    let mut found: Option<(usize, usize, usize)> = None;
    for character in it: source.chars()
        invariant
            it.seq() == source@,
            source@.len() < usize::MAX,
            total == encode_utf8(source@).len(),
            index_character == it.index(),
            index_byte == byte_offset(source@, it.index() as int),
            found is None ==> line_of(source@, line_number as nat) == line_span(
                source@,
                line_number as nat,
                it.index() as int,
                current_line as nat,
                start_character as int,
            ) && start_byte == byte_offset(source@, start_character as int) && start_character
                <= it.index() && current_line <= it.index() + 1,
            found matches Some((start, end, offset)) ==> line_of(source@, line_number as nat)
                == Some((start as int, end as int)) && offset == byte_offset(source@, start as int)
                && start <= end <= source@.len(),
    {
        proof {
            lemma_byte_offset(source@, it.index() as int + 1);
        }
        let next_byte = index_byte + character.len_utf8();
        if found.is_none() && character == '\n' {
            if current_line == line_number {
                found = Some((start_character, index_character, start_byte));
            } else {
                current_line += 1;
                start_character = index_character + 1;
                start_byte = next_byte;
            }
        }
        index_character += 1;
        index_byte = next_byte;
    }
    match found {
        Some((start, end, offset)) => Some((source.substring_char(start, end), offset)),
        None => {
            if current_line == line_number {
                Some((source.substring_char(start_character, index_character), start_byte))
            } else {
                None
            }
        },
    }
}

/// `count` times the same character.
pub open spec fn repeated(character: char, count: nat) -> Seq<char> {
    Seq::new(count, |i: int| character)
}

/// The number of carets under a span on a line that starts `line_start`
/// bytes into the source: one for each byte of the span on the line, and at
/// least one.
pub open spec fn caret_count(span: Span, line_start: nat) -> nat {
    let start = if span.start >= line_start {
        span.start - line_start
    } else {
        0
    };
    let end = if span.end >= line_start {
        span.end - line_start
    } else {
        0
    };
    if end > start {
        (end - start) as nat
    } else {
        1
    }
}

/// The number of spaces before the carets.
pub open spec fn caret_indent(span: Span, line_start: nat) -> nat {
    if span.start >= line_start {
        (span.start - line_start) as nat
    } else {
        0
    }
}

/// An error as it is shown to a person. Without a span: the path, a colon
/// and the message. With a span: the path, the line and the column of the
/// start of the span, and the message; then the line of the source, and
/// under it carets that mark the span.
pub open spec fn rendered(path: Seq<char>, source: Seq<char>, message: Seq<char>, span: Option<Span>) -> Seq<
    char,
> {
    match span {
        None => path + ": "@ + message + "\n"@,
        Some(span) => {
            let position = line_col(source, span.start as nat);
            let head = path + ":"@ + decimal_text(position.0) + ":"@ + decimal_text(position.1)
                + ": "@ + message + "\n"@;
            match line_of(source, position.0) {
                Some((start, end)) => {
                    let line_start = byte_offset(source, start);
                    head + source.subrange(start, end) + "\n"@ + repeated(
                        ' ',
                        caret_indent(span, line_start),
                    ) + repeated('^', caret_count(span, line_start)) + "\n"@
                },
                None => head,
            }
        },
    }
}

/// Appends `count` times `character` to `output`.
fn push_repeated(output: &mut String, character: char, count: usize)
    ensures
        final(output)@ == old(output)@ + repeated(character, count as nat),
{
    let mut written: usize = 0;
    assert(old(output)@ + repeated(character, 0) =~= old(output)@);
    while written < count
        invariant
            written <= count,
            output@ == old(output)@ + repeated(character, written as nat),
        decreases count - written,
    {
        output.push(character);
        written += 1;
        assert((old(output)@ + repeated(character, (written - 1) as nat)).push(character)
            =~= old(output)@ + repeated(character, written as nat));
    }
}

/// An error as it is shown to a person.
fn render(path: &str, source: &str, message: &str, span: Option<Span>) -> (output: String)
    ensures
        output@ == rendered(path@, source@, message@, span),
{
    let mut output = String::from_str(path);
    match span {
        None => {
            output.append(": ");
            output.append(message);
            output.append("\n");
        },
        Some(span) => {
            let (line, col) = line_col_from_offset(source, span.start);
            output.append(":");
            push_decimal(&mut output, line as u64);
            output.append(":");
            push_decimal(&mut output, col as u64);
            output.append(": ");
            output.append(message);
            output.append("\n");
            match line_text_and_line_start(source, line) {
                Some((line_text, line_start)) => {
                    output.append(line_text);
                    output.append("\n");
                    let caret_start = if span.start >= line_start {
                        span.start - line_start
                    } else {
                        0
                    };
                    let caret_end = if span.end >= line_start {
                        span.end - line_start
                    } else {
                        0
                    };
                    let count = if caret_end > caret_start {
                        caret_end - caret_start
                    } else {
                        1
                    };
                    push_repeated(&mut output, ' ', caret_start);
                    push_repeated(&mut output, '^', count);
                    output.append("\n");
                },
                None => {},
            }
        },
    }
    output
}

/// A runtime error as it is shown to a person.
pub fn render_runtime_error(path: &str, source: &str, error: &RuntimeError) -> (output: String)
    ensures
        output@ == rendered(path@, source@, error.message@, error.span),
{
    render(path, source, error.message.as_str(), error.span)
}

/// A parse error as it is shown to a person.
pub fn render_parse_error(path: &str, source: &str, error: &ParseError) -> (output: String)
    ensures
        output@ == rendered(path@, source@, error.message@, error.span),
{
    render(path, source, error.message.as_str(), error.span)
}

} // verus!
