use crate::amarok::expression::{Expression, ExpressionModel, LiteralModel, LiteralValue};
use crate::amarok::statement::{statement_models, Statement, StatementModel};
use crate::amarok::token::{name_of_type, token_models, Token, TokenModel, TokenType};
use vstd::prelude::*;
use vstd::std_specs::iter::IteratorSpec;
use vstd::string::StringExecFns;

verus! {

/// A violation of the grammar: what is wrong, and the line of the token at
/// which it shows.
#[derive(Debug, PartialEq, Eq)]
pub struct ParseError {
    pub message: String,
    pub line_number: usize,
}

/// The mathematical value of a [`ParseError`].
pub ghost struct ParseErrorModel {
    pub message: Seq<char>,
    pub line_number: nat,
}

impl View for ParseError {
    type V = ParseErrorModel;

    open spec fn view(&self) -> ParseErrorModel {
        ParseErrorModel { message: self.message@, line_number: self.line_number as nat }
    }
}

impl ParseError {
    /// An error with the given message on the given line.
    pub fn new(message: String, line_number: usize) -> (error: Self)
        ensures
            error.message == message,
            error.line_number == line_number,
    {
        ParseError { message, line_number }
    }
}

/// The binary operators by how loosely they bind, the loosest first.
#[derive(Debug, Clone, Copy, PartialEq, Eq, Structural)]
pub enum Level {
    /// `!=` and `==`.
    Equality,
    /// `>`, `>=`, `<` and `<=`.
    Comparison,
    /// `-` and `+`.
    Term,
    /// `/` and `*`.
    Factor,
}

/// Whether a token is an operator of a level.
pub open spec fn is_operator(level: Level, token_type: TokenType) -> bool {
    match level {
        Level::Equality => token_type == TokenType::BangEqual || token_type
            == TokenType::EqualEqual,
        Level::Comparison => token_type == TokenType::Greater || token_type
            == TokenType::GreaterEqual || token_type == TokenType::Less || token_type
            == TokenType::LessEqual,
        Level::Term => token_type == TokenType::Minus || token_type == TokenType::Plus,
        Level::Factor => token_type == TokenType::Slash || token_type == TokenType::Star,
    }
}

/// A measure of how loosely a level binds.
pub open spec fn rank(level: Level) -> nat {
    match level {
        Level::Equality => 6,
        Level::Comparison => 5,
        Level::Term => 4,
        Level::Factor => 3,
    }
}

/// The kind of the token at `at`. Past the last token the parser reads the
/// end of the file.
pub open spec fn kind_at(tokens: Seq<TokenModel>, at: int) -> TokenType {
    if 0 <= at < tokens.len() {
        tokens[at].token_type
    } else {
        TokenType::EndOfFile
    }
}

/// The line of the token at `at`; past the last token, the line of the
/// last token, and line one where there is no token at all.
pub open spec fn line_of(tokens: Seq<TokenModel>, at: int) -> nat {
    if 0 <= at < tokens.len() {
        tokens[at].line_number
    } else if tokens.len() > 0 {
        tokens.last().line_number
    } else {
        1
    }
}

/// The number of tokens from `at` to the end.
pub open spec fn remaining(tokens: Seq<TokenModel>, at: int) -> nat {
    if at < tokens.len() {
        (tokens.len() - at) as nat
    } else {
        0
    }
}

/// What parsing one construct yields: the construct or the first error, and
/// the number of tokens consumed, up to the offending token in case of an
/// error.
pub ghost struct Parsed<T> {
    pub outcome: Result<T, ParseErrorModel>,
    pub length: nat,
}

/// `parsed`, after `before` tokens that were consumed ahead of it.
pub open spec fn after<T>(before: nat, parsed: Parsed<T>) -> Parsed<T> {
    Parsed { outcome: parsed.outcome, length: before + parsed.length }
}

/// The error for a token that is not the expected one: the message, then
/// what was found.
pub open spec fn unexpected(tokens: Seq<TokenModel>, at: int, message: Seq<char>) -> ParseErrorModel {
    ParseErrorModel {
        message: message + " Found "@ + name_of_type(kind_at(tokens, at)) + "."@,
        line_number: line_of(tokens, at),
    }
}

/// The error for a token that starts no expression.
pub open spec fn no_expression(tokens: Seq<TokenModel>, at: int) -> ParseErrorModel {
    ParseErrorModel {
        message: "Expected expression, found "@ + name_of_type(kind_at(tokens, at)),
        line_number: line_of(tokens, at),
    }
}

/// The text of a string token without its quotes, where it has them.
pub open spec fn without_quotes(lexeme: Seq<char>) -> Seq<char> {
    if lexeme.len() >= 2 && lexeme.first() == '"' && lexeme.last() == '"' {
        lexeme.subrange(1, lexeme.len() - 1)
    } else {
        lexeme
    }
}

/// `expression := equality`.
pub open spec fn parse_expression_at(tokens: Seq<TokenModel>, at: int) -> Parsed<ExpressionModel>
    decreases remaining(tokens, at), 13nat,
{
    parse_level_at(tokens, at, Level::Equality)
}

/// The operand of an operator of `level`: an expression of the level that
/// binds next tighter, and a unary expression for `*` and `/`.
pub open spec fn parse_operand_at(tokens: Seq<TokenModel>, at: int, level: Level) -> Parsed<
    ExpressionModel,
>
    decreases remaining(tokens, at), 2 * rank(level) - 1,
{
    match level {
        Level::Equality => parse_level_at(tokens, at, Level::Comparison),
        Level::Comparison => parse_level_at(tokens, at, Level::Term),
        Level::Term => parse_level_at(tokens, at, Level::Factor),
        Level::Factor => parse_unary_at(tokens, at),
    }
}

/// `operand (operator operand)*` for the operators of one level, grouping
/// to the left.
pub open spec fn parse_level_at(tokens: Seq<TokenModel>, at: int, level: Level) -> Parsed<
    ExpressionModel,
>
    decreases remaining(tokens, at), 2 * rank(level),
{
    let first = parse_operand_at(tokens, at, level);
    match first.outcome {
        Err(_) => first,
        Ok(left) => after(first.length, level_tail_at(tokens, at + first.length, level, left)),
    }
}

/// The rest of an expression of `level` whose operands so far make up
/// `left`.
pub open spec fn level_tail_at(tokens: Seq<TokenModel>, at: int, level: Level, left: ExpressionModel) -> Parsed<
    ExpressionModel,
>
    decreases remaining(tokens, at), 0nat,
{
    if is_operator(level, kind_at(tokens, at)) {
        let operand = parse_operand_at(tokens, at + 1, level);
        match operand.outcome {
            Err(_) => after(1, operand),
            Ok(right) => after(
                1 + operand.length,
                level_tail_at(
                    tokens,
                    at + 1 + operand.length,
                    level,
                    ExpressionModel::Binary {
                        left: Box::new(left),
                        operator: tokens[at],
                        right: Box::new(right),
                    },
                ),
            ),
        }
    } else {
        Parsed { outcome: Ok(left), length: 0 }
    }
}

/// `unary := ("!" | "-") unary | primary`.
pub open spec fn parse_unary_at(tokens: Seq<TokenModel>, at: int) -> Parsed<ExpressionModel>
    decreases remaining(tokens, at), 2nat,
{
    let kind = kind_at(tokens, at);
    if kind == TokenType::Bang || kind == TokenType::Minus {
        let operand = parse_unary_at(tokens, at + 1);
        match operand.outcome {
            Err(_) => after(1, operand),
            Ok(right) => Parsed {
                outcome: Ok(ExpressionModel::Unary { operator: tokens[at], right: Box::new(right) }),
                length: 1 + operand.length,
            },
        }
    } else {
        parse_primary_at(tokens, at)
    }
}

/// `primary := NUMBER | STRING | "true" | "false" | "nil" | IDENTIFIER |
/// "(" expression ")"`.
pub open spec fn parse_primary_at(tokens: Seq<TokenModel>, at: int) -> Parsed<ExpressionModel>
    decreases remaining(tokens, at), 1nat,
{
    let kind = kind_at(tokens, at);
    if kind == TokenType::False {
        Parsed { outcome: Ok(ExpressionModel::Literal(LiteralModel::Boolean(false))), length: 1 }
    } else if kind == TokenType::True {
        Parsed { outcome: Ok(ExpressionModel::Literal(LiteralModel::Boolean(true))), length: 1 }
    } else if kind == TokenType::Nil {
        Parsed { outcome: Ok(ExpressionModel::Literal(LiteralModel::Nil)), length: 1 }
    } else if kind == TokenType::Number {
        Parsed {
            outcome: Ok(ExpressionModel::Literal(LiteralModel::Number(tokens[at].lexeme))),
            length: 1,
        }
    } else if kind == TokenType::String {
        Parsed {
            outcome: Ok(
                ExpressionModel::Literal(LiteralModel::Text(without_quotes(tokens[at].lexeme))),
            ),
            length: 1,
        }
    } else if kind == TokenType::Identifier {
        Parsed { outcome: Ok(ExpressionModel::Identifier(tokens[at])), length: 1 }
    } else if kind == TokenType::LeftParenthesis {
        let inner = parse_expression_at(tokens, at + 1);
        match inner.outcome {
            Err(_) => after(1, inner),
            Ok(expression) => if kind_at(tokens, at + 1 + inner.length)
                == TokenType::RightParenthesis {
                Parsed {
                    outcome: Ok(ExpressionModel::Grouping(Box::new(expression))),
                    length: inner.length + 2,
                }
            } else {
                Parsed {
                    outcome: Err(
                        unexpected(tokens, at + 1 + inner.length, "Expected ')' after expression."@),
                    ),
                    length: inner.length + 1,
                }
            },
        }
    } else {
        Parsed { outcome: Err(no_expression(tokens, at)), length: 0 }
    }
}

/// `expression ";"`, where `message` says what the semicolon is missing
/// after.
pub open spec fn parse_terminated_at(tokens: Seq<TokenModel>, at: int, message: Seq<char>) -> Parsed<
    ExpressionModel,
> {
    let value = parse_expression_at(tokens, at);
    match value.outcome {
        Err(_) => value,
        Ok(expression) => if kind_at(tokens, at + value.length) == TokenType::Semicolon {
            Parsed { outcome: Ok(expression), length: value.length + 1 }
        } else {
            Parsed {
                outcome: Err(unexpected(tokens, at + value.length, message)),
                length: value.length,
            }
        },
    }
}

/// `statement := "print" expression ";" | expression ";"`.
pub open spec fn parse_statement_at(tokens: Seq<TokenModel>, at: int) -> Parsed<StatementModel> {
    if kind_at(tokens, at) == TokenType::Print {
        let value = parse_terminated_at(tokens, at + 1, "Expected ';' after value."@);
        Parsed {
            outcome: match value.outcome {
                Ok(expression) => Ok(StatementModel::Print(expression)),
                Err(error) => Err(error),
            },
            length: 1 + value.length,
        }
    } else {
        let value = parse_terminated_at(tokens, at, "Expected ';' after expression."@);
        Parsed {
            outcome: match value.outcome {
                Ok(expression) => Ok(StatementModel::Evaluate(expression)),
                Err(error) => Err(error),
            },
            length: value.length,
        }
    }
}

/// The statements from `at` up to the end of the file, or the first error.
pub open spec fn parse_program_at(tokens: Seq<TokenModel>, at: int) -> Parsed<Seq<StatementModel>>
    decreases remaining(tokens, at),
{
    if kind_at(tokens, at) == TokenType::EndOfFile {
        Parsed { outcome: Ok(Seq::empty()), length: 0 }
    } else {
        let first = parse_statement_at(tokens, at);
        match first.outcome {
            Err(error) => Parsed { outcome: Err(error), length: first.length },
            Ok(statement) => {
                let rest = parse_program_at(tokens, at + first.length);
                match rest.outcome {
                    Err(error) => Parsed { outcome: Err(error), length: first.length + rest.length },
                    Ok(statements) => Parsed {
                        outcome: Ok(seq![statement] + statements),
                        length: first.length + rest.length,
                    },
                }
            },
        }
    }
}


/// Whether an executable result is the one that the grammar gives.
pub open spec fn expression_agrees(
    result: Result<Expression, ParseError>,
    outcome: Result<ExpressionModel, ParseErrorModel>,
) -> bool {
    match outcome {
        Ok(model) => result matches Ok(expression) && expression@ == model,
        Err(model) => result matches Err(error) && error@ == model,
    }
}

/// Whether an executable result is the one that the grammar gives.
pub open spec fn statement_agrees(
    result: Result<Statement, ParseError>,
    outcome: Result<StatementModel, ParseErrorModel>,
) -> bool {
    match outcome {
        Ok(model) => result matches Ok(statement) && statement@ == model,
        Err(model) => result matches Err(error) && error@ == model,
    }
}

/// Whether an executable result is the one that the grammar gives.
pub open spec fn program_agrees(
    result: Result<Vec<Statement>, ParseError>,
    outcome: Result<Seq<StatementModel>, ParseErrorModel>,
) -> bool {
    match outcome {
        Ok(model) => result matches Ok(statements) && statement_models(statements@) == model,
        Err(model) => result matches Err(error) && error@ == model,
    }
}

/// `parsed`, after `length` tokens from which `statements` were parsed.
pub open spec fn prepend(
    statements: Seq<StatementModel>,
    length: nat,
    parsed: Parsed<Seq<StatementModel>>,
) -> Parsed<Seq<StatementModel>> {
    Parsed {
        outcome: match parsed.outcome {
            Ok(rest) => Ok(statements + rest),
            Err(error) => Err(error),
        },
        length: length + parsed.length,
    }
}

/// A recursive-descent parser over one sequence of tokens.
pub struct Parser {
    tokens: Vec<Token>,
    current_index: usize,
}

impl Parser {
    #[verifier::type_invariant]
    spec fn well_formed(&self) -> bool {
        self.current_index <= self.tokens@.len()
    }

    /// The tokens that this parser reads.
    pub closed spec fn tokens(&self) -> Seq<TokenModel> {
        token_models(self.tokens@)
    }

    /// The number of tokens consumed so far.
    pub closed spec fn offset(&self) -> int {
        self.current_index as int
    }

    /// A parser at the first of `tokens`.
    pub fn new(tokens: Vec<Token>) -> (parser: Self)
        ensures
            parser.tokens() == token_models(tokens@),
            parser.offset() == 0,
    {
        Parser { tokens, current_index: 0 }
    }

    /// Parses one expression from the cursor on.
    pub fn parse_expression(&mut self) -> (result: Result<Expression, ParseError>)
        ensures
            final(self).tokens() == old(self).tokens(),
            final(self).offset() == old(self).offset() + parse_expression_at(
                old(self).tokens(),
                old(self).offset(),
            ).length,
            expression_agrees(
                result,
                parse_expression_at(old(self).tokens(), old(self).offset()).outcome,
            ),
        decreases remaining(old(self).tokens(), old(self).offset()), 20nat,
    {
        self.parse_equality()
    }

    fn parse_equality(&mut self) -> (result: Result<Expression, ParseError>)
        ensures
            final(self).tokens() == old(self).tokens(),
            final(self).offset() == old(self).offset() + parse_level_at(
                old(self).tokens(),
                old(self).offset(),
                Level::Equality,
            ).length,
            expression_agrees(
                result,
                parse_level_at(old(self).tokens(), old(self).offset(), Level::Equality).outcome,
            ),
        decreases remaining(old(self).tokens(), old(self).offset()), 19nat,
    {
        self.parse_level(Level::Equality)
    }

    fn parse_comparison(&mut self) -> (result: Result<Expression, ParseError>)
        ensures
            final(self).tokens() == old(self).tokens(),
            final(self).offset() == old(self).offset() + parse_level_at(
                old(self).tokens(),
                old(self).offset(),
                Level::Comparison,
            ).length,
            expression_agrees(
                result,
                parse_level_at(old(self).tokens(), old(self).offset(), Level::Comparison).outcome,
            ),
        decreases remaining(old(self).tokens(), old(self).offset()), 16nat,
    {
        self.parse_level(Level::Comparison)
    }

    fn parse_term(&mut self) -> (result: Result<Expression, ParseError>)
        ensures
            final(self).tokens() == old(self).tokens(),
            final(self).offset() == old(self).offset() + parse_level_at(
                old(self).tokens(),
                old(self).offset(),
                Level::Term,
            ).length,
            expression_agrees(
                result,
                parse_level_at(old(self).tokens(), old(self).offset(), Level::Term).outcome,
            ),
        decreases remaining(old(self).tokens(), old(self).offset()), 13nat,
    {
        self.parse_level(Level::Term)
    }

    fn parse_factor(&mut self) -> (result: Result<Expression, ParseError>)
        ensures
            final(self).tokens() == old(self).tokens(),
            final(self).offset() == old(self).offset() + parse_level_at(
                old(self).tokens(),
                old(self).offset(),
                Level::Factor,
            ).length,
            expression_agrees(
                result,
                parse_level_at(old(self).tokens(), old(self).offset(), Level::Factor).outcome,
            ),
        decreases remaining(old(self).tokens(), old(self).offset()), 10nat,
    {
        self.parse_level(Level::Factor)
    }

    /// Parses an operand of an operator of `level`.
    fn parse_operand(&mut self, level: Level) -> (result: Result<Expression, ParseError>)
        ensures
            final(self).tokens() == old(self).tokens(),
            final(self).offset() == old(self).offset() + parse_operand_at(
                old(self).tokens(),
                old(self).offset(),
                level,
            ).length,
            expression_agrees(
                result,
                parse_operand_at(old(self).tokens(), old(self).offset(), level).outcome,
            ),
        decreases remaining(old(self).tokens(), old(self).offset()), 3 * rank(level) - 1,
    {
        match level {
            Level::Equality => self.parse_comparison(),
            Level::Comparison => self.parse_term(),
            Level::Term => self.parse_factor(),
            Level::Factor => self.parse_unary(),
        }
    }

    /// Parses operands of one level with the operators between them.
    fn parse_level(&mut self, level: Level) -> (result: Result<Expression, ParseError>)
        ensures
            final(self).tokens() == old(self).tokens(),
            final(self).offset() == old(self).offset() + parse_level_at(
                old(self).tokens(),
                old(self).offset(),
                level,
            ).length,
            expression_agrees(
                result,
                parse_level_at(old(self).tokens(), old(self).offset(), level).outcome,
            ),
        decreases remaining(old(self).tokens(), old(self).offset()), 3 * rank(level),
    {
        let ghost tokens = self.tokens();
        let ghost start = self.offset();
        let mut expression = match self.parse_operand(level) {
            Ok(expression) => expression,
            Err(error) => {
                return Err(error);
            },
        };
        loop
            invariant
                tokens == old(self).tokens(),
                start == old(self).offset(),
                self.tokens() == tokens,
                start <= self.offset(),
                parse_level_at(tokens, start, level) == after(
                    (self.offset() - start) as nat,
                    level_tail_at(tokens, self.offset(), level, expression@),
                ),
            ensures
                self.tokens() == tokens,
                self.offset() == start + parse_level_at(tokens, start, level).length,
                parse_level_at(tokens, start, level).outcome == Ok::<
                    ExpressionModel,
                    ParseErrorModel,
                >(expression@),
            decreases remaining(tokens, self.offset()),
        {
            let matched = match level {
                Level::Equality => self.matches(&[TokenType::BangEqual, TokenType::EqualEqual]),
                Level::Comparison => self.matches(
                    &[
                        TokenType::Greater,
                        TokenType::GreaterEqual,
                        TokenType::Less,
                        TokenType::LessEqual,
                    ],
                ),
                Level::Term => self.matches(&[TokenType::Minus, TokenType::Plus]),
                Level::Factor => self.matches(&[TokenType::Slash, TokenType::Star]),
            };
            if !matched {
                break ;
            }
            let operator = self.previous().clone();
            let right = match self.parse_operand(level) {
                Ok(expression) => expression,
                Err(error) => {
                    return Err(error);
                },
            };
            expression = Expression::Binary {
                left: Box::new(expression),
                operator,
                right: Box::new(right),
            };
        }
        Ok(expression)
    }

    fn parse_unary(&mut self) -> (result: Result<Expression, ParseError>)
        ensures
            final(self).tokens() == old(self).tokens(),
            final(self).offset() == old(self).offset() + parse_unary_at(
                old(self).tokens(),
                old(self).offset(),
            ).length,
            expression_agrees(result, parse_unary_at(old(self).tokens(), old(self).offset()).outcome),
        decreases remaining(old(self).tokens(), old(self).offset()), 2nat,
    {
        if self.matches(&[TokenType::Bang, TokenType::Minus]) {
            let operator = self.previous().clone();
            let right = match self.parse_unary() {
                Ok(expression) => expression,
                Err(error) => {
                    return Err(error);
                },
            };
            return Ok(Expression::Unary { operator, right: Box::new(right) });
        }
        self.parse_primary()
    }

    fn parse_primary(&mut self) -> (result: Result<Expression, ParseError>)
        ensures
            final(self).tokens() == old(self).tokens(),
            final(self).offset() == old(self).offset() + parse_primary_at(
                old(self).tokens(),
                old(self).offset(),
            ).length,
            expression_agrees(
                result,
                parse_primary_at(old(self).tokens(), old(self).offset()).outcome,
            ),
        decreases remaining(old(self).tokens(), old(self).offset()), 1nat,
    {
        if self.matches(&[TokenType::False]) {
            return Ok(Expression::Literal(LiteralValue::Boolean(false)));
        }
        if self.matches(&[TokenType::True]) {
            return Ok(Expression::Literal(LiteralValue::Boolean(true)));
        }
        if self.matches(&[TokenType::Nil]) {
            return Ok(Expression::Literal(LiteralValue::Nil));
        }
        if self.matches(&[TokenType::Number]) {
            let token = self.previous();
            return Ok(Expression::Literal(LiteralValue::Number(token.lexeme.clone())));
        }
        if self.matches(&[TokenType::String]) {
            let token = self.previous();
            return Ok(Expression::Literal(LiteralValue::String(strip_quotes(&token.lexeme))));
        }
        if self.matches(&[TokenType::Identifier]) {
            return Ok(Expression::Identifier(self.previous().clone()));
        }
        if self.matches(&[TokenType::LeftParenthesis]) {
            let expression = match self.parse_expression() {
                Ok(expression) => expression,
                Err(error) => {
                    return Err(error);
                },
            };
            match self.consume(TokenType::RightParenthesis, "Expected ')' after expression.") {
                Ok(_) => {},
                Err(error) => {
                    return Err(error);
                },
            }
            return Ok(Expression::Grouping(Box::new(expression)));
        }
        let mut message = String::from_str("Expected expression, found ");
        message.append(self.peek_type().name());
        Err(ParseError::new(message, self.peek_line()))
    }

    /// Consumes the token under the cursor if its kind is one of `types`,
    /// and says whether it was.
    fn matches(&mut self, types: &[TokenType]) -> (matched: bool)
        requires
            !types@.contains(TokenType::EndOfFile),
        ensures
            final(self).tokens() == old(self).tokens(),
            matched == types@.contains(kind_at(old(self).tokens(), old(self).offset())),
            final(self).offset() == if matched {
                old(self).offset() + 1
            } else {
                old(self).offset()
            },
            matched ==> old(self).offset() < old(self).tokens().len(),
    {
        let mut index: usize = 0;
        while index < types.len()
            invariant
                index <= types.len(),
                self.tokens() == old(self).tokens(),
                self.offset() == old(self).offset(),
                !types@.contains(TokenType::EndOfFile),
                forall|i: int|
                    0 <= i < index ==> types@[i] != kind_at(old(self).tokens(), old(self).offset()),
            decreases types.len() - index,
        {
            if self.check(types[index]) {
                assert(types@.contains(types@[index as int]));
                self.advance();
                return true;
            }
            index += 1;
        }
        false
    }

    /// Consumes the token under the cursor if it is of the given kind; if
    /// not, the error starts with `message`.
    fn consume(&mut self, token_type: TokenType, message: &str) -> (result: Result<(), ParseError>)
        requires
            token_type != TokenType::EndOfFile,
        ensures
            final(self).tokens() == old(self).tokens(),
            if kind_at(old(self).tokens(), old(self).offset()) == token_type {
                result is Ok && final(self).offset() == old(self).offset() + 1
            } else {
                final(self).offset() == old(self).offset() && (result matches Err(error) && error@
                    == unexpected(old(self).tokens(), old(self).offset(), message@))
            },
    {
        if self.check(token_type) {
            self.advance();
            return Ok(());
        }
        let mut text = String::from_str(message);
        text.append(" Found ");
        text.append(self.peek_type().name());
        text.append(".");
        Err(ParseError::new(text, self.peek_line()))
    }

    /// Whether the token under the cursor is of the given kind and not the
    /// end of the file.
    fn check(&self, token_type: TokenType) -> (yes: bool)
        ensures
            yes == (kind_at(self.tokens(), self.offset()) == token_type && token_type
                != TokenType::EndOfFile),
            yes ==> self.offset() < self.tokens().len(),
    {
        if self.is_at_end() {
            return false;
        }
        self.peek_type() == token_type
    }

    /// Moves the cursor to the next token, unless the file has ended.
    fn advance(&mut self)
        ensures
            final(self).tokens() == old(self).tokens(),
            final(self).offset() == if kind_at(old(self).tokens(), old(self).offset())
                != TokenType::EndOfFile {
                old(self).offset() + 1
            } else {
                old(self).offset()
            },
    {
        if !self.is_at_end() {
            let length = self.tokens.len();
            proof {
                use_type_invariant(&*self);
                assert(self.tokens().len() == length);
            }
            self.current_index += 1;
        }
    }

    /// Whether the cursor stands on the end of the file.
    fn is_at_end(&self) -> (yes: bool)
        ensures
            yes == (kind_at(self.tokens(), self.offset()) == TokenType::EndOfFile),
            0 <= self.offset() <= self.tokens().len(),
    {
        proof {
            use_type_invariant(self);
        }
        self.peek_type() == TokenType::EndOfFile
    }

    /// The token under the cursor, or none past the last token.
    fn peek(&self) -> (token: Option<&Token>)
        ensures
            match token {
                Some(token) => 0 <= self.offset() < self.tokens().len() && token@
                    == self.tokens()[self.offset()],
                None => self.offset() >= self.tokens().len(),
            },
    {
        proof {
            use_type_invariant(self);
        }
        if self.current_index < self.tokens.len() {
            Some(&self.tokens[self.current_index])
        } else {
            None
        }
    }

    /// The kind of the token under the cursor.
    fn peek_type(&self) -> (token_type: TokenType)
        ensures
            token_type == kind_at(self.tokens(), self.offset()),
    {
        match self.peek() {
            Some(token) => token.token_type,
            None => TokenType::EndOfFile,
        }
    }

    /// The line of the token under the cursor.
    fn peek_line(&self) -> (line_number: usize)
        ensures
            line_number == line_of(self.tokens(), self.offset()),
    {
        proof {
            use_type_invariant(self);
        }
        match self.peek() {
            Some(token) => token.line_number,
            None => {
                if self.tokens.len() > 0 {
                    self.tokens[self.tokens.len() - 1].line_number
                } else {
                    1
                }
            },
        }
    }

    /// The token before the cursor.
    fn previous(&self) -> (token: &Token)
        requires
            1 <= self.offset() <= self.tokens().len(),
        ensures
            token@ == self.tokens()[self.offset() - 1],
    {
        &self.tokens[self.current_index - 1]
    }

    /// Parses statements from the cursor up to the end of the file. Parsing
    /// stops at the first error, with the cursor on the offending token.
    pub fn parse_program(&mut self) -> (result: Result<Vec<Statement>, ParseError>)
        ensures
            final(self).tokens() == old(self).tokens(),
            final(self).offset() == old(self).offset() + parse_program_at(
                old(self).tokens(),
                old(self).offset(),
            ).length,
            program_agrees(result, parse_program_at(old(self).tokens(), old(self).offset()).outcome),
    {
        let ghost tokens = self.tokens();
        let ghost start = self.offset();
        let mut statements: Vec<Statement> = Vec::new();
        while !self.is_at_end()
            invariant
                tokens == old(self).tokens(),
                start == old(self).offset(),
                self.tokens() == tokens,
                start <= self.offset(),
                parse_program_at(tokens, start) == prepend(
                    statement_models(statements@),
                    (self.offset() - start) as nat,
                    parse_program_at(tokens, self.offset()),
                ),
            decreases remaining(tokens, self.offset()),
        {
            let ghost here = self.offset();
            let ghost before = statement_models(statements@);
            let statement = match self.parse_statement() {
                Ok(statement) => statement,
                Err(error) => {
                    return Err(error);
                },
            };
            statements.push(statement);
            proof {
                let first = parse_statement_at(tokens, here);
                let rest = parse_program_at(tokens, here + first.length);
                assert(statement_models(statements@) =~= before.push(first.outcome->Ok_0));
                match rest.outcome {
                    Ok(others) => {
                        assert(before + (seq![first.outcome->Ok_0] + others) =~= before.push(
                            first.outcome->Ok_0,
                        ) + others);
                    },
                    Err(_) => {},
                }
            }
        }
        proof {
            assert(statement_models(statements@) + Seq::<StatementModel>::empty()
                =~= statement_models(statements@));
        }
        Ok(statements)
    }

    fn parse_statement(&mut self) -> (result: Result<Statement, ParseError>)
        ensures
            final(self).tokens() == old(self).tokens(),
            final(self).offset() == old(self).offset() + parse_statement_at(
                old(self).tokens(),
                old(self).offset(),
            ).length,
            statement_agrees(
                result,
                parse_statement_at(old(self).tokens(), old(self).offset()).outcome,
            ),
    {
        if self.matches(&[TokenType::Print]) {
            return self.parse_print_statement();
        }
        self.parse_expression_statement()
    }

    fn parse_print_statement(&mut self) -> (result: Result<Statement, ParseError>)
        ensures
            final(self).tokens() == old(self).tokens(),
            ({
                let value = parse_terminated_at(
                    old(self).tokens(),
                    old(self).offset(),
                    "Expected ';' after value."@,
                );
                &&& final(self).offset() == old(self).offset() + value.length
                &&& match value.outcome {
                    Ok(expression) => result matches Ok(statement) && statement@
                        == StatementModel::Print(expression),
                    Err(model) => result matches Err(error) && error@ == model,
                }
            }),
    {
        let expression = match self.parse_expression() {
            Ok(expression) => expression,
            Err(error) => {
                return Err(error);
            },
        };
        match self.consume(TokenType::Semicolon, "Expected ';' after value.") {
            Ok(_) => {},
            Err(error) => {
                return Err(error);
            },
        }
        Ok(Statement::Print(expression))
    }

    fn parse_expression_statement(&mut self) -> (result: Result<Statement, ParseError>)
        ensures
            final(self).tokens() == old(self).tokens(),
            ({
                let value = parse_terminated_at(
                    old(self).tokens(),
                    old(self).offset(),
                    "Expected ';' after expression."@,
                );
                &&& final(self).offset() == old(self).offset() + value.length
                &&& match value.outcome {
                    Ok(expression) => result matches Ok(statement) && statement@
                        == StatementModel::Evaluate(expression),
                    Err(model) => result matches Err(error) && error@ == model,
                }
            }),
    {
        let expression = match self.parse_expression() {
            Ok(expression) => expression,
            Err(error) => {
                return Err(error);
            },
        };
        match self.consume(TokenType::Semicolon, "Expected ';' after expression.") {
            Ok(_) => {},
            Err(error) => {
                return Err(error);
            },
        }
        Ok(Statement::Expression(expression))
    }
}

/// The text of a string token without its quotes, where it has them.
fn strip_quotes(lexeme: &String) -> (text: String)
    ensures
        text@ == without_quotes(lexeme@),
{
    let mut characters: Vec<char> = Vec::new();
    for character in it: lexeme.as_str().chars()
        invariant
            characters@ == it.seq().take(it.index() as int),
            it.seq() == lexeme@,
    {
        characters.push(character);
    }
    let length = characters.len();
    if length >= 2 && characters[0] == '"' && characters[length - 1] == '"' {
        let mut text = String::new();
        let mut index: usize = 1;
        while index < length - 1
            invariant
                1 <= index <= length - 1,
                length == characters@.len(),
                text@ == characters@.subrange(1, index as int),
            decreases length - index,
        {
            text.push(characters[index]);
            index += 1;
            assert(characters@.subrange(1, index as int) == characters@.subrange(
                1,
                index as int - 1,
            ).push(characters@[index as int - 1]));
        }
        text
    } else {
        lexeme.clone()
    }
}

} // verus!
