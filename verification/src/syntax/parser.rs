use crate::syntax::ast::{
    statement_models, BinaryOperator, Expression, ExpressionNode, ProgramNode, Statement,
    StatementNode,
};
use crate::syntax::token::{kind_name, token_models, Token, TokenKind, TokenModel};
use crate::text::{all_digits, decimal_text, digits_value, is_digit, parse_integer, push_decimal};
use vstd::prelude::*;
use vstd::string::{StrSliceExecFns, StringExecFns};

verus! {

/// What the parser was looking for where it found something else.
#[derive(Debug, Clone, Copy, PartialEq, Eq, Structural)]
pub enum Expected {
    /// A number, an identifier or an opening parenthesis.
    Expression,
    /// The `)` that closes a parenthesised expression.
    ClosingParenthesis,
    /// The name of the variable after `let`.
    Identifier,
    /// The `=` after the name of a declared variable.
    Equal,
    /// The `;` that ends a statement.
    Semicolon,
    /// A number that fits in 64 bits.
    Integer,
}

/// A violation of the grammar: what was expected, and the kind and place of
/// the token that stands there instead.
#[derive(Debug, Clone, Copy, PartialEq, Eq)]
pub struct ParseError {
    pub expected: Expected,
    pub found: TokenKind,
    pub line_number: usize,
    pub column_number: usize,
}

/// The mathematical value of a [`ParseError`].
pub ghost struct ParseErrorModel {
    pub expected: Expected,
    pub found: TokenKind,
    pub line_number: nat,
    pub column_number: nat,
}

impl View for ParseError {
    type V = ParseErrorModel;

    open spec fn view(&self) -> ParseErrorModel {
        ParseErrorModel {
            expected: self.expected,
            found: self.found,
            line_number: self.line_number as nat,
            column_number: self.column_number as nat,
        }
    }
}

/// The value of the text of a number token: that of its digits, where there
/// is at least one, all are digits, and the number fits in 64 bits.
pub open spec fn integer_value(text: Seq<char>) -> Option<i64> {
    if text.len() > 0 && all_digits(text) && digits_value(text) <= i64::MAX {
        Some(digits_value(text) as i64)
    } else {
        None
    }
}

/// The kind of the token at `at`. Past the last token the parser reads the
/// end of the file.
pub open spec fn kind_at(tokens: Seq<TokenModel>, at: int) -> TokenKind {
    if 0 <= at < tokens.len() {
        tokens[at].kind
    } else {
        TokenKind::EndOfFile
    }
}

/// The error for the token at `at`. It carries that token's kind and place;
/// past the last token, the place of the last token, and line one, column
/// one, where there is no token at all.
pub open spec fn failure(tokens: Seq<TokenModel>, at: int, expected: Expected) -> ParseErrorModel {
    if 0 <= at < tokens.len() {
        ParseErrorModel {
            expected,
            found: tokens[at].kind,
            line_number: tokens[at].line_number,
            column_number: tokens[at].column_number,
        }
    } else if tokens.len() > 0 {
        ParseErrorModel {
            expected,
            found: TokenKind::EndOfFile,
            line_number: tokens.last().line_number,
            column_number: tokens.last().column_number,
        }
    } else {
        ParseErrorModel { expected, found: TokenKind::EndOfFile, line_number: 1, column_number: 1 }
    }
}

/// The number of tokens from `at` to the end.
pub open spec fn remaining(tokens: Seq<TokenModel>, at: int) -> nat {
    if at < tokens.len() {
        (tokens.len() - at) as nat
    } else {
        0
    }
}

/// What parsing one construct yields: the construct or the first error, and
/// the number of tokens consumed, up to the offending token in case of an
/// error.
pub ghost struct Parsed<T> {
    pub outcome: Result<T, ParseErrorModel>,
    pub length: nat,
}

/// `parsed`, after `before` tokens that were consumed ahead of it.
pub open spec fn after<T>(before: nat, parsed: Parsed<T>) -> Parsed<T> {
    Parsed { outcome: parsed.outcome, length: before + parsed.length }
}

/// `expression := term`.
pub open spec fn parse_expression_at(tokens: Seq<TokenModel>, at: int) -> Parsed<Expression>
    decreases remaining(tokens, at), 5nat,
{
    parse_term_at(tokens, at)
}

/// `term := factor (("+" | "-") factor)*`, grouping to the left.
pub open spec fn parse_term_at(tokens: Seq<TokenModel>, at: int) -> Parsed<Expression>
    decreases remaining(tokens, at), 4nat,
{
    let first = parse_factor_at(tokens, at);
    match first.outcome {
        Err(_) => first,
        Ok(left) => after(first.length, term_tail_at(tokens, at + first.length, left)),
    }
}

/// The rest of a term whose operands so far make up `left`.
pub open spec fn term_tail_at(tokens: Seq<TokenModel>, at: int, left: Expression) -> Parsed<
    Expression,
>
    decreases remaining(tokens, at), 0nat,
{
    let kind = kind_at(tokens, at);
    if kind == TokenKind::Plus || kind == TokenKind::Minus {
        let operator = if kind == TokenKind::Plus {
            BinaryOperator::Add
        } else {
            BinaryOperator::Subtract
        };
        let operand = parse_factor_at(tokens, at + 1);
        match operand.outcome {
            Err(_) => after(1, operand),
            Ok(right) => after(
                1 + operand.length,
                term_tail_at(
                    tokens,
                    at + 1 + operand.length,
                    Expression::Binary { operator, left: Box::new(left), right: Box::new(right) },
                ),
            ),
        }
    } else {
        Parsed { outcome: Ok(left), length: 0 }
    }
}

/// `factor := primary (("*" | "/") primary)*`, grouping to the left.
pub open spec fn parse_factor_at(tokens: Seq<TokenModel>, at: int) -> Parsed<Expression>
    decreases remaining(tokens, at), 3nat,
{
    let first = parse_primary_at(tokens, at);
    match first.outcome {
        Err(_) => first,
        Ok(left) => after(first.length, factor_tail_at(tokens, at + first.length, left)),
    }
}

/// The rest of a factor whose operands so far make up `left`.
pub open spec fn factor_tail_at(tokens: Seq<TokenModel>, at: int, left: Expression) -> Parsed<
    Expression,
>
    decreases remaining(tokens, at), 0nat,
{
    let kind = kind_at(tokens, at);
    if kind == TokenKind::Star || kind == TokenKind::Slash {
        let operator = if kind == TokenKind::Star {
            BinaryOperator::Multiply
        } else {
            BinaryOperator::Divide
        };
        let operand = parse_primary_at(tokens, at + 1);
        match operand.outcome {
            Err(_) => after(1, operand),
            Ok(right) => after(
                1 + operand.length,
                factor_tail_at(
                    tokens,
                    at + 1 + operand.length,
                    Expression::Binary { operator, left: Box::new(left), right: Box::new(right) },
                ),
            ),
        }
    } else {
        Parsed { outcome: Ok(left), length: 0 }
    }
}

/// `primary := NUMBER | IDENT | "(" expression ")"`.
pub open spec fn parse_primary_at(tokens: Seq<TokenModel>, at: int) -> Parsed<Expression>
    decreases remaining(tokens, at), 2nat,
{
    let kind = kind_at(tokens, at);
    if kind == TokenKind::Number {
        match integer_value(tokens[at].text) {
            Some(value) => Parsed { outcome: Ok(Expression::Number { value }), length: 1 },
            None => Parsed { outcome: Err(failure(tokens, at, Expected::Integer)), length: 0 },
        }
    } else if kind == TokenKind::Identifier {
        Parsed { outcome: Ok(Expression::Identifier { name: tokens[at].text }), length: 1 }
    } else if kind == TokenKind::LeftParenthesis {
        let inner = parse_expression_at(tokens, at + 1);
        match inner.outcome {
            Err(_) => after(1, inner),
            Ok(expression) => if kind_at(tokens, at + 1 + inner.length)
                == TokenKind::RightParenthesis {
                Parsed { outcome: Ok(expression), length: inner.length + 2 }
            } else {
                Parsed {
                    outcome: Err(
                        failure(tokens, at + 1 + inner.length, Expected::ClosingParenthesis),
                    ),
                    length: inner.length + 1,
                }
            },
        }
    } else {
        Parsed { outcome: Err(failure(tokens, at, Expected::Expression)), length: 0 }
    }
}

/// `"let" IDENT "=" expression ";"`, with the cursor on `let`.
pub open spec fn parse_declaration_at(tokens: Seq<TokenModel>, at: int) -> Parsed<Statement> {
    if kind_at(tokens, at + 1) != TokenKind::Identifier {
        Parsed { outcome: Err(failure(tokens, at + 1, Expected::Identifier)), length: 1 }
    } else if kind_at(tokens, at + 2) != TokenKind::Equal {
        Parsed { outcome: Err(failure(tokens, at + 2, Expected::Equal)), length: 2 }
    } else {
        let value = parse_expression_at(tokens, at + 3);
        match value.outcome {
            Err(error) => Parsed { outcome: Err(error), length: 3 + value.length },
            Ok(expression) => if kind_at(tokens, at + 3 + value.length) == TokenKind::Semicolon {
                Parsed {
                    outcome: Ok(Statement::Declare { name: tokens[at + 1].text, value: expression }),
                    length: value.length + 4,
                }
            } else {
                Parsed {
                    outcome: Err(failure(tokens, at + 3 + value.length, Expected::Semicolon)),
                    length: value.length + 3,
                }
            },
        }
    }
}

/// `expression ";"`.
pub open spec fn parse_expression_statement_at(tokens: Seq<TokenModel>, at: int) -> Parsed<
    Statement,
> {
    let value = parse_expression_at(tokens, at);
    match value.outcome {
        Err(error) => Parsed { outcome: Err(error), length: value.length },
        Ok(expression) => if kind_at(tokens, at + value.length) == TokenKind::Semicolon {
            Parsed { outcome: Ok(Statement::Evaluate { expression }), length: value.length + 1 }
        } else {
            Parsed {
                outcome: Err(failure(tokens, at + value.length, Expected::Semicolon)),
                length: value.length,
            }
        },
    }
}

/// `statement := "let" IDENT "=" expression ";" | expression ";"`.
pub open spec fn parse_statement_at(tokens: Seq<TokenModel>, at: int) -> Parsed<Statement> {
    if kind_at(tokens, at) == TokenKind::Let {
        parse_declaration_at(tokens, at)
    } else {
        parse_expression_statement_at(tokens, at)
    }
}

/// `program := statement* EOF`: the statements from `at` up to the end of
/// the file, or the first error.
pub open spec fn parse_program_at(tokens: Seq<TokenModel>, at: int) -> Parsed<Seq<Statement>>
    decreases remaining(tokens, at),
{
    if kind_at(tokens, at) == TokenKind::EndOfFile {
        Parsed { outcome: Ok(Seq::empty()), length: 0 }
    } else {
        let first = parse_statement_at(tokens, at);
        match first.outcome {
            Err(error) => Parsed { outcome: Err(error), length: first.length },
            Ok(statement) => {
                let rest = parse_program_at(tokens, at + first.length);
                match rest.outcome {
                    Err(error) => Parsed { outcome: Err(error), length: first.length + rest.length },
                    Ok(statements) => Parsed {
                        outcome: Ok(seq![statement] + statements),
                        length: first.length + rest.length,
                    },
                }
            },
        }
    }
}

/// The program that a whole sequence of tokens spells, or the first error.
pub open spec fn parse_tokens(tokens: Seq<TokenModel>) -> Result<Seq<Statement>, ParseErrorModel> {
    parse_program_at(tokens, 0).outcome
}


/// Whether an executable result is the one that the grammar gives.
pub open spec fn expression_agrees(
    result: Result<ExpressionNode, ParseError>,
    outcome: Result<Expression, ParseErrorModel>,
) -> bool {
    match outcome {
        Ok(model) => result matches Ok(node) && node@ == model,
        Err(model) => result matches Err(error) && error@ == model,
    }
}

/// Whether an executable result is the one that the grammar gives.
pub open spec fn statement_agrees(
    result: Result<StatementNode, ParseError>,
    outcome: Result<Statement, ParseErrorModel>,
) -> bool {
    match outcome {
        Ok(model) => result matches Ok(node) && node@ == model,
        Err(model) => result matches Err(error) && error@ == model,
    }
}

/// Whether an executable result is the one that the grammar gives.
pub open spec fn program_agrees(
    result: Result<ProgramNode, ParseError>,
    outcome: Result<Seq<Statement>, ParseErrorModel>,
) -> bool {
    match outcome {
        Ok(model) => result matches Ok(node) && node@ == model,
        Err(model) => result matches Err(error) && error@ == model,
    }
}

/// The value of the text of a number token. A number token has no sign,
/// so a text that starts with one has no value; the digits are read as
/// [`parse_integer`] reads them.
fn integer_of(text: &str) -> (value: Option<i64>)
    ensures
        value == integer_value(text@),
{
    if text.unicode_len() == 0 {
        return None;
    }
    let first = text.get_char(0);
    if first == '-' || first == '+' {
        assert(!is_digit(text@[0]));
        return None;
    }
    parse_integer(text)
}

/// A recursive-descent parser over one sequence of tokens. It never changes
/// the tokens; it moves a cursor over them.
pub struct Parser {
    tokens: Vec<Token>,
    position: usize,
}

impl Parser {
    #[verifier::type_invariant]
    spec fn well_formed(&self) -> bool {
        self.position <= self.tokens@.len()
    }

    /// The tokens that this parser reads.
    pub closed spec fn tokens(&self) -> Seq<TokenModel> {
        token_models(self.tokens@)
    }

    /// The number of tokens consumed so far.
    pub closed spec fn offset(&self) -> int {
        self.position as int
    }

    /// A parser at the first of `tokens`.
    pub fn new(tokens: Vec<Token>) -> (parser: Self)
        ensures
            parser.tokens() == token_models(tokens@),
            parser.offset() == 0,
    {
        Parser { tokens, position: 0 }
    }

    /// The kind of the token under the cursor.
    fn current(&self) -> (kind: TokenKind)
        ensures
            kind == kind_at(self.tokens(), self.offset()),
            0 <= self.offset() <= self.tokens().len(),
    {
        proof {
            use_type_invariant(self);
        }
        if self.position < self.tokens.len() {
            self.tokens[self.position].kind
        } else {
            TokenKind::EndOfFile
        }
    }

    /// The text of the token under the cursor.
    fn current_text(&self) -> (text: String)
        requires
            self.offset() < self.tokens().len(),
        ensures
            text@ == self.tokens()[self.offset()].text,
    {
        proof {
            use_type_invariant(self);
        }
        self.tokens[self.position].text.clone()
    }

    /// The error for the token under the cursor.
    fn unexpected(&self, expected: Expected) -> (error: ParseError)
        ensures
            error@ == failure(self.tokens(), self.offset(), expected),
    {
        proof {
            use_type_invariant(self);
        }
        if self.position < self.tokens.len() {
            let token = &self.tokens[self.position];
            ParseError {
                expected,
                found: token.kind,
                line_number: token.line_number,
                column_number: token.column_number,
            }
        } else if self.tokens.len() > 0 {
            let token = &self.tokens[self.tokens.len() - 1];
            ParseError {
                expected,
                found: TokenKind::EndOfFile,
                line_number: token.line_number,
                column_number: token.column_number,
            }
        } else {
            ParseError { expected, found: TokenKind::EndOfFile, line_number: 1, column_number: 1 }
        }
    }

    /// Moves the cursor to the next token, if there is one.
    fn advance(&mut self)
        ensures
            final(self).tokens() == old(self).tokens(),
            final(self).offset() == if old(self).offset() < old(self).tokens().len() {
                old(self).offset() + 1
            } else {
                old(self).offset()
            },
    {
        proof {
            use_type_invariant(&*self);
        }
        if self.position < self.tokens.len() {
            self.position += 1;
        }
    }

    /// Consumes the token under the cursor if it is of `kind`, and says
    /// whether it was.
    fn match_kind(&mut self, kind: TokenKind) -> (matched: bool)
        ensures
            final(self).tokens() == old(self).tokens(),
            matched == (kind_at(old(self).tokens(), old(self).offset()) == kind),
            final(self).offset() == if matched && old(self).offset() < old(self).tokens().len() {
                old(self).offset() + 1
            } else {
                old(self).offset()
            },
    {
        if self.current() == kind {
            self.advance();
            return true;
        }
        false
    }

    /// Parses one expression from the cursor on.
    pub fn parse_expression(&mut self) -> (result: Result<ExpressionNode, ParseError>)
        ensures
            final(self).tokens() == old(self).tokens(),
            final(self).offset() == old(self).offset() + parse_expression_at(
                old(self).tokens(),
                old(self).offset(),
            ).length,
            expression_agrees(
                result,
                parse_expression_at(old(self).tokens(), old(self).offset()).outcome,
            ),
        decreases remaining(old(self).tokens(), old(self).offset()), 5nat,
    {
        self.parse_term()
    }

    fn parse_term(&mut self) -> (result: Result<ExpressionNode, ParseError>)
        ensures
            final(self).tokens() == old(self).tokens(),
            final(self).offset() == old(self).offset() + parse_term_at(
                old(self).tokens(),
                old(self).offset(),
            ).length,
            expression_agrees(result, parse_term_at(old(self).tokens(), old(self).offset()).outcome),
        decreases remaining(old(self).tokens(), old(self).offset()), 4nat,
    {
        let ghost tokens = self.tokens();
        let ghost start = self.offset();
        let mut left = match self.parse_factor() {
            Ok(node) => node,
            Err(error) => {
                return Err(error);
            },
        };
        loop
            invariant
                tokens == old(self).tokens(),
                start == old(self).offset(),
                self.tokens() == tokens,
                start <= self.offset(),
                parse_term_at(tokens, start) == after(
                    (self.offset() - start) as nat,
                    term_tail_at(tokens, self.offset(), left@),
                ),
            ensures
                self.tokens() == tokens,
                self.offset() == start + parse_term_at(tokens, start).length,
                parse_term_at(tokens, start).outcome == Ok::<Expression, ParseErrorModel>(left@),
            decreases remaining(tokens, self.offset()),
        {
            let operator = match self.current() {
                TokenKind::Plus => BinaryOperator::Add,
                TokenKind::Minus => BinaryOperator::Subtract,
                _ => {
                    break ;
                },
            };
            self.advance();
            let right = match self.parse_factor() {
                Ok(node) => node,
                Err(error) => {
                    return Err(error);
                },
            };
            left = ExpressionNode::BinaryOperation {
                operator,
                left: Box::new(left),
                right: Box::new(right),
            };
        }
        Ok(left)
    }

    fn parse_factor(&mut self) -> (result: Result<ExpressionNode, ParseError>)
        ensures
            final(self).tokens() == old(self).tokens(),
            final(self).offset() == old(self).offset() + parse_factor_at(
                old(self).tokens(),
                old(self).offset(),
            ).length,
            expression_agrees(
                result,
                parse_factor_at(old(self).tokens(), old(self).offset()).outcome,
            ),
        decreases remaining(old(self).tokens(), old(self).offset()), 3nat,
    {
        let ghost tokens = self.tokens();
        let ghost start = self.offset();
        let mut left = match self.parse_primary() {
            Ok(node) => node,
            Err(error) => {
                return Err(error);
            },
        };
        loop
            invariant
                tokens == old(self).tokens(),
                start == old(self).offset(),
                self.tokens() == tokens,
                start <= self.offset(),
                parse_factor_at(tokens, start) == after(
                    (self.offset() - start) as nat,
                    factor_tail_at(tokens, self.offset(), left@),
                ),
            ensures
                self.tokens() == tokens,
                self.offset() == start + parse_factor_at(tokens, start).length,
                parse_factor_at(tokens, start).outcome == Ok::<Expression, ParseErrorModel>(left@),
            decreases remaining(tokens, self.offset()),
        {
            let operator = match self.current() {
                TokenKind::Star => BinaryOperator::Multiply,
                TokenKind::Slash => BinaryOperator::Divide,
                _ => {
                    break ;
                },
            };
            self.advance();
            let right = match self.parse_primary() {
                Ok(node) => node,
                Err(error) => {
                    return Err(error);
                },
            };
            left = ExpressionNode::BinaryOperation {
                operator,
                left: Box::new(left),
                right: Box::new(right),
            };
        }
        Ok(left)
    }

    fn parse_primary(&mut self) -> (result: Result<ExpressionNode, ParseError>)
        ensures
            final(self).tokens() == old(self).tokens(),
            final(self).offset() == old(self).offset() + parse_primary_at(
                old(self).tokens(),
                old(self).offset(),
            ).length,
            expression_agrees(
                result,
                parse_primary_at(old(self).tokens(), old(self).offset()).outcome,
            ),
        decreases remaining(old(self).tokens(), old(self).offset()), 2nat,
    {
        match self.current() {
            TokenKind::Number => {
                let text = self.current_text();
                match integer_of(text.as_str()) {
                    Some(value) => {
                        self.advance();
                        Ok(ExpressionNode::NumberLiteral { value })
                    },
                    None => Err(self.unexpected(Expected::Integer)),
                }
            },
            TokenKind::Identifier => {
                let name = self.current_text();
                self.advance();
                Ok(ExpressionNode::IdentifierReference { name })
            },
            TokenKind::LeftParenthesis => {
                self.advance();
                let expression = match self.parse_expression() {
                    Ok(node) => node,
                    Err(error) => {
                        return Err(error);
                    },
                };
                if !self.match_kind(TokenKind::RightParenthesis) {
                    return Err(self.unexpected(Expected::ClosingParenthesis));
                }
                Ok(expression)
            },
            _ => Err(self.unexpected(Expected::Expression)),
        }
    }

    fn parse_statement(&mut self) -> (result: Result<StatementNode, ParseError>)
        ensures
            final(self).tokens() == old(self).tokens(),
            final(self).offset() == old(self).offset() + parse_statement_at(
                old(self).tokens(),
                old(self).offset(),
            ).length,
            statement_agrees(
                result,
                parse_statement_at(old(self).tokens(), old(self).offset()).outcome,
            ),
    {
        match self.current() {
            TokenKind::Let => self.parse_variable_declaration(),
            _ => self.parse_expression_statement(),
        }
    }

    fn parse_variable_declaration(&mut self) -> (result: Result<StatementNode, ParseError>)
        requires
            kind_at(old(self).tokens(), old(self).offset()) == TokenKind::Let,
        ensures
            final(self).tokens() == old(self).tokens(),
            final(self).offset() == old(self).offset() + parse_declaration_at(
                old(self).tokens(),
                old(self).offset(),
            ).length,
            statement_agrees(
                result,
                parse_declaration_at(old(self).tokens(), old(self).offset()).outcome,
            ),
    {
        self.advance();
        if self.current() != TokenKind::Identifier {
            return Err(self.unexpected(Expected::Identifier));
        }
        let name = self.current_text();
        self.advance();
        if self.current() != TokenKind::Equal {
            return Err(self.unexpected(Expected::Equal));
        }
        self.advance();
        let value = match self.parse_expression() {
            Ok(node) => node,
            Err(error) => {
                return Err(error);
            },
        };
        if !self.match_kind(TokenKind::Semicolon) {
            return Err(self.unexpected(Expected::Semicolon));
        }
        Ok(StatementNode::VariableDeclaration { name, value })
    }

    fn parse_expression_statement(&mut self) -> (result: Result<StatementNode, ParseError>)
        ensures
            final(self).tokens() == old(self).tokens(),
            final(self).offset() == old(self).offset() + parse_expression_statement_at(
                old(self).tokens(),
                old(self).offset(),
            ).length,
            statement_agrees(
                result,
                parse_expression_statement_at(old(self).tokens(), old(self).offset()).outcome,
            ),
    {
        let expression = match self.parse_expression() {
            Ok(node) => node,
            Err(error) => {
                return Err(error);
            },
        };
        if !self.match_kind(TokenKind::Semicolon) {
            return Err(self.unexpected(Expected::Semicolon));
        }
        Ok(StatementNode::ExpressionStatement { expression })
    }

    /// Parses statements from the cursor up to the end of the file. Parsing
    /// stops at the first error, with the cursor on the offending token.
    pub fn parse_program(&mut self) -> (result: Result<ProgramNode, ParseError>)
        ensures
            final(self).tokens() == old(self).tokens(),
            final(self).offset() == old(self).offset() + parse_program_at(
                old(self).tokens(),
                old(self).offset(),
            ).length,
            program_agrees(result, parse_program_at(old(self).tokens(), old(self).offset()).outcome),
    {
        let ghost tokens = self.tokens();
        let ghost start = self.offset();
        let mut statements: Vec<StatementNode> = Vec::new();
        while self.current() != TokenKind::EndOfFile
            invariant
                tokens == old(self).tokens(),
                start == old(self).offset(),
                self.tokens() == tokens,
                start <= self.offset(),
                parse_program_at(tokens, start) == prepend(
                    statement_models(statements@),
                    (self.offset() - start) as nat,
                    parse_program_at(tokens, self.offset()),
                ),
            decreases remaining(tokens, self.offset()),
        {
            let ghost here = self.offset();
            let ghost before = statement_models(statements@);
            let statement = match self.parse_statement() {
                Ok(node) => node,
                Err(error) => {
                    return Err(error);
                },
            };
            statements.push(statement);
            proof {
                let first = parse_statement_at(tokens, here);
                let rest = parse_program_at(tokens, here + first.length);
                assert(statement_models(statements@) =~= before.push(first.outcome->Ok_0));
                match rest.outcome {
                    Ok(others) => {
                        assert(before + (seq![first.outcome->Ok_0] + others) =~= before.push(
                            first.outcome->Ok_0,
                        ) + others);
                    },
                    Err(_) => {},
                }
            }
        }
        let program = ProgramNode { statements };
        proof {
            assert(statement_models(statements@) + Seq::<Statement>::empty() =~= statement_models(
                statements@,
            ));
        }
        Ok(program)
    }
}

/// `parsed`, after `length` tokens from which `statements` were parsed.
pub open spec fn prepend(statements: Seq<Statement>, length: nat, parsed: Parsed<Seq<Statement>>) -> Parsed<
    Seq<Statement>,
> {
    Parsed {
        outcome: match parsed.outcome {
            Ok(rest) => Ok(statements + rest),
            Err(error) => Err(error),
        },
        length: length + parsed.length,
    }
}


/// What the parser was looking for, in words.
pub open spec fn expected_text(expected: Expected) -> Seq<char> {
    match expected {
        Expected::Expression => "a number, an identifier or '('"@,
        Expected::ClosingParenthesis => "closing parenthesis"@,
        Expected::Identifier => "identifier after 'let'"@,
        Expected::Equal => "'=' after variable name"@,
        Expected::Semicolon => "semicolon"@,
        Expected::Integer => "a number that fits in 64 bits"@,
    }
}

/// The text of a parse error: what was expected, the line and column of
/// the offending token, and its kind.
pub open spec fn parse_error_text(error: ParseErrorModel) -> Seq<char> {
    "Expected "@ + expected_text(error.expected) + " at "@ + decimal_text(error.line_number) + ":"@
        + decimal_text(error.column_number) + ", found "@ + kind_name(error.found)
}

impl Expected {
    /// What the parser was looking for, in words.
    pub fn describe(&self) -> (text: &'static str)
        ensures
            text@ == expected_text(*self),
    {
        match self {
            Expected::Expression => "a number, an identifier or '('",
            Expected::ClosingParenthesis => "closing parenthesis",
            Expected::Identifier => "identifier after 'let'",
            Expected::Equal => "'=' after variable name",
            Expected::Semicolon => "semicolon",
            Expected::Integer => "a number that fits in 64 bits",
        }
    }
}

impl ParseError {
    /// The error as one line of text.
    pub fn to_string(&self) -> (text: String)
        ensures
            text@ == parse_error_text(self@),
    {
        let mut text = String::from_str("Expected ");
        text.append(self.expected.describe());
        text.append(" at ");
        push_decimal(&mut text, self.line_number as u64);
        text.append(":");
        push_decimal(&mut text, self.column_number as u64);
        text.append(", found ");
        text.append(self.found.name());
        text
    }
}


/// Whether a token is an operand by itself: an identifier, or a number
/// that fits in 64 bits.
pub open spec fn is_operand(token: TokenModel) -> bool {
    token.kind == TokenKind::Identifier || (token.kind == TokenKind::Number && integer_value(
        token.text,
    ) is Some)
}

/// The expression that an operand token spells.
pub open spec fn operand(token: TokenModel) -> Expression {
    if token.kind == TokenKind::Number {
        Expression::Number { value: integer_value(token.text)->Some_0 }
    } else {
        Expression::Identifier { name: token.text }
    }
}

/// Whether a token is `+` or `-`.
pub open spec fn is_additive(kind: TokenKind) -> bool {
    kind == TokenKind::Plus || kind == TokenKind::Minus
}

/// Whether a token is `*` or `/`.
pub open spec fn is_multiplicative(kind: TokenKind) -> bool {
    kind == TokenKind::Star || kind == TokenKind::Slash
}

/// The operator that an operator token spells.
pub open spec fn operator_of(kind: TokenKind) -> BinaryOperator {
    if kind == TokenKind::Plus {
        BinaryOperator::Add
    } else if kind == TokenKind::Minus {
        BinaryOperator::Subtract
    } else if kind == TokenKind::Star {
        BinaryOperator::Multiply
    } else {
        BinaryOperator::Divide
    }
}

/// The operation of `operator` on `left` and `right`.
pub open spec fn binary(operator: BinaryOperator, left: Expression, right: Expression) -> Expression {
    Expression::Binary { operator, left: Box::new(left), right: Box::new(right) }
}

/// An operand token parses as the operand that it spells.
proof fn lemma_operand_parses(tokens: Seq<TokenModel>, at: int)
    requires
        0 <= at < tokens.len(),
        is_operand(tokens[at]),
    ensures
        parse_primary_at(tokens, at) == (Parsed { outcome: Ok(operand(tokens[at])), length: 1 }),
{
}

/// Precedence and associativity, for any three operands and any two
/// operators between them: `a op b op c`, followed by something that is no
/// operator, groups to the left, unless the second operator is `*` or `/`
/// and the first is `+` or `-`; then the second binds its operands first.
pub proof fn lemma_precedence_and_associativity(tokens: Seq<TokenModel>, at: int)
    requires
        0 <= at,
        at + 5 <= tokens.len(),
        is_operand(tokens[at]),
        is_operand(tokens[at + 2]),
        is_operand(tokens[at + 4]),
        is_additive(tokens[at + 1].kind) || is_multiplicative(tokens[at + 1].kind),
        is_additive(tokens[at + 3].kind) || is_multiplicative(tokens[at + 3].kind),
        !is_additive(kind_at(tokens, at + 5)),
        !is_multiplicative(kind_at(tokens, at + 5)),
    ensures
        parse_expression_at(tokens, at).length == 5,
        parse_expression_at(tokens, at).outcome == Ok::<Expression, ParseErrorModel>(
            if is_additive(tokens[at + 1].kind) && is_multiplicative(tokens[at + 3].kind) {
                binary(
                    operator_of(tokens[at + 1].kind),
                    operand(tokens[at]),
                    binary(
                        operator_of(tokens[at + 3].kind),
                        operand(tokens[at + 2]),
                        operand(tokens[at + 4]),
                    ),
                )
            } else {
                binary(
                    operator_of(tokens[at + 3].kind),
                    binary(
                        operator_of(tokens[at + 1].kind),
                        operand(tokens[at]),
                        operand(tokens[at + 2]),
                    ),
                    operand(tokens[at + 4]),
                )
            },
        ),
{
    let a = operand(tokens[at]);
    let b = operand(tokens[at + 2]);
    let c = operand(tokens[at + 4]);
    let first = tokens[at + 1].kind;
    let second = tokens[at + 3].kind;
    lemma_operand_parses(tokens, at);
    lemma_operand_parses(tokens, at + 2);
    lemma_operand_parses(tokens, at + 4);
    assert(kind_at(tokens, at + 1) == first);
    assert(kind_at(tokens, at + 3) == second);
    if is_multiplicative(first) {
        let ab = binary(operator_of(first), a, b);
        if is_multiplicative(second) {
            let abc = binary(operator_of(second), ab, c);
            assert(factor_tail_at(tokens, at + 5, abc) == (Parsed { outcome: Ok(abc), length: 0 }));
            assert(factor_tail_at(tokens, at + 3, ab) == (Parsed { outcome: Ok(abc), length: 2 }));
            assert(factor_tail_at(tokens, at + 1, a) == (Parsed { outcome: Ok(abc), length: 4 }));
            assert(parse_factor_at(tokens, at) == (Parsed { outcome: Ok(abc), length: 5 }));
            assert(term_tail_at(tokens, at + 5, abc) == (Parsed { outcome: Ok(abc), length: 0 }));
            assert(parse_term_at(tokens, at) == (Parsed { outcome: Ok(abc), length: 5 }));
        } else {
            let abc = binary(operator_of(second), ab, c);
            assert(factor_tail_at(tokens, at + 3, ab) == (Parsed { outcome: Ok(ab), length: 0 }));
            assert(factor_tail_at(tokens, at + 1, a) == (Parsed { outcome: Ok(ab), length: 2 }));
            assert(parse_factor_at(tokens, at) == (Parsed { outcome: Ok(ab), length: 3 }));
            assert(factor_tail_at(tokens, at + 5, c) == (Parsed { outcome: Ok(c), length: 0 }));
            assert(parse_factor_at(tokens, at + 4) == (Parsed { outcome: Ok(c), length: 1 }));
            assert(term_tail_at(tokens, at + 5, abc) == (Parsed { outcome: Ok(abc), length: 0 }));
            assert(term_tail_at(tokens, at + 3, ab) == (Parsed { outcome: Ok(abc), length: 2 }));
            assert(parse_term_at(tokens, at) == (Parsed { outcome: Ok(abc), length: 5 }));
        }
    } else {
        assert(factor_tail_at(tokens, at + 1, a) == (Parsed { outcome: Ok(a), length: 0 }));
        assert(parse_factor_at(tokens, at) == (Parsed { outcome: Ok(a), length: 1 }));
        if is_multiplicative(second) {
            let bc = binary(operator_of(second), b, c);
            let abc = binary(operator_of(first), a, bc);
            assert(factor_tail_at(tokens, at + 5, bc) == (Parsed { outcome: Ok(bc), length: 0 }));
            assert(factor_tail_at(tokens, at + 3, b) == (Parsed { outcome: Ok(bc), length: 2 }));
            assert(parse_factor_at(tokens, at + 2) == (Parsed { outcome: Ok(bc), length: 3 }));
            assert(term_tail_at(tokens, at + 5, abc) == (Parsed { outcome: Ok(abc), length: 0 }));
            assert(term_tail_at(tokens, at + 1, a) == (Parsed { outcome: Ok(abc), length: 4 }));
            assert(parse_term_at(tokens, at) == (Parsed { outcome: Ok(abc), length: 5 }));
        } else {
            let ab = binary(operator_of(first), a, b);
            let abc = binary(operator_of(second), ab, c);
            assert(factor_tail_at(tokens, at + 3, b) == (Parsed { outcome: Ok(b), length: 0 }));
            assert(parse_factor_at(tokens, at + 2) == (Parsed { outcome: Ok(b), length: 1 }));
            assert(factor_tail_at(tokens, at + 5, c) == (Parsed { outcome: Ok(c), length: 0 }));
            assert(parse_factor_at(tokens, at + 4) == (Parsed { outcome: Ok(c), length: 1 }));
            assert(term_tail_at(tokens, at + 5, abc) == (Parsed { outcome: Ok(abc), length: 0 }));
            assert(term_tail_at(tokens, at + 3, ab) == (Parsed { outcome: Ok(abc), length: 2 }));
            assert(term_tail_at(tokens, at + 1, a) == (Parsed { outcome: Ok(abc), length: 4 }));
            assert(parse_term_at(tokens, at) == (Parsed { outcome: Ok(abc), length: 5 }));
        }
    }
}

/// Parentheses override precedence: an expression between parentheses is
/// an operand.
pub proof fn lemma_parentheses_make_an_operand(tokens: Seq<TokenModel>, at: int)
    requires
        0 <= at < tokens.len(),
        tokens[at].kind == TokenKind::LeftParenthesis,
        parse_expression_at(tokens, at + 1).outcome is Ok,
        kind_at(tokens, at + 1 + parse_expression_at(tokens, at + 1).length)
            == TokenKind::RightParenthesis,
    ensures
        parse_primary_at(tokens, at).outcome == parse_expression_at(tokens, at + 1).outcome,
        parse_primary_at(tokens, at).length == parse_expression_at(tokens, at + 1).length + 2,
{
}

/// Parsing makes progress and stays within the tokens: an expression that
/// parses takes up at least one token, and none behind the last.
pub proof fn lemma_expression_extent(tokens: Seq<TokenModel>, at: int)
    requires
        0 <= at,
    ensures
        parse_expression_at(tokens, at).outcome is Ok ==> 1 <= parse_expression_at(tokens, at).length
            && at + parse_expression_at(tokens, at).length <= tokens.len(),
    decreases remaining(tokens, at), 5nat,
{
    lemma_term_extent(tokens, at);
}

proof fn lemma_term_extent(tokens: Seq<TokenModel>, at: int)
    requires
        0 <= at,
    ensures
        parse_term_at(tokens, at).outcome is Ok ==> 1 <= parse_term_at(tokens, at).length && at
            + parse_term_at(tokens, at).length <= tokens.len(),
    decreases remaining(tokens, at), 4nat,
{
    lemma_factor_extent(tokens, at);
    let first = parse_factor_at(tokens, at);
    if let Ok(left) = first.outcome {
        lemma_term_tail_extent(tokens, at + first.length, left);
    }
}

proof fn lemma_term_tail_extent(tokens: Seq<TokenModel>, at: int, left: Expression)
    requires
        0 <= at <= tokens.len(),
    ensures
        term_tail_at(tokens, at, left).outcome is Ok ==> at + term_tail_at(tokens, at, left).length
            <= tokens.len(),
    decreases remaining(tokens, at), 0nat,
{
    let kind = kind_at(tokens, at);
    if kind == TokenKind::Plus || kind == TokenKind::Minus {
        lemma_factor_extent(tokens, at + 1);
        let operand = parse_factor_at(tokens, at + 1);
        if let Ok(right) = operand.outcome {
            let operator = if kind == TokenKind::Plus {
                BinaryOperator::Add
            } else {
                BinaryOperator::Subtract
            };
            lemma_term_tail_extent(
                tokens,
                at + 1 + operand.length,
                Expression::Binary { operator, left: Box::new(left), right: Box::new(right) },
            );
        }
    }
}

proof fn lemma_factor_extent(tokens: Seq<TokenModel>, at: int)
    requires
        0 <= at,
    ensures
        parse_factor_at(tokens, at).outcome is Ok ==> 1 <= parse_factor_at(tokens, at).length && at
            + parse_factor_at(tokens, at).length <= tokens.len(),
    decreases remaining(tokens, at), 3nat,
{
    lemma_primary_extent(tokens, at);
    let first = parse_primary_at(tokens, at);
    if let Ok(left) = first.outcome {
        lemma_factor_tail_extent(tokens, at + first.length, left);
    }
}

proof fn lemma_factor_tail_extent(tokens: Seq<TokenModel>, at: int, left: Expression)
    requires
        0 <= at <= tokens.len(),
    ensures
        factor_tail_at(tokens, at, left).outcome is Ok ==> at + factor_tail_at(
            tokens,
            at,
            left,
        ).length <= tokens.len(),
    decreases remaining(tokens, at), 0nat,
{
    let kind = kind_at(tokens, at);
    if kind == TokenKind::Star || kind == TokenKind::Slash {
        lemma_primary_extent(tokens, at + 1);
        let operand = parse_primary_at(tokens, at + 1);
        if let Ok(right) = operand.outcome {
            let operator = if kind == TokenKind::Star {
                BinaryOperator::Multiply
            } else {
                BinaryOperator::Divide
            };
            lemma_factor_tail_extent(
                tokens,
                at + 1 + operand.length,
                Expression::Binary { operator, left: Box::new(left), right: Box::new(right) },
            );
        }
    }
}

proof fn lemma_primary_extent(tokens: Seq<TokenModel>, at: int)
    requires
        0 <= at,
    ensures
        parse_primary_at(tokens, at).outcome is Ok ==> 1 <= parse_primary_at(tokens, at).length && at
            + parse_primary_at(tokens, at).length <= tokens.len(),
    decreases remaining(tokens, at), 2nat,
{
    if kind_at(tokens, at) == TokenKind::LeftParenthesis {
        lemma_expression_extent(tokens, at + 1);
    }
}

} // verus!
