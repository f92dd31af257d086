//! Lexing and parsing of source text.

pub mod ast;
pub mod display;
pub mod lexer;
pub mod parser;
pub mod token;

use crate::syntax::ast::{ProgramNode, Statement};
use crate::syntax::lexer::{lex, lex_error_text, tokens_of, LexError, LexErrorModel};
use crate::syntax::parser::{
    parse_error_text, parse_tokens, ParseError, ParseErrorModel, Parser,
};
use vstd::prelude::*;

verus! {

/// Why a source text is no program: a character that starts no token, or a
/// violation of the grammar.
#[derive(Debug, Clone, Copy, PartialEq, Eq)]
pub enum SyntaxError {
    Lexical(LexError),
    Grammatical(ParseError),
}

/// The mathematical value of a [`SyntaxError`].
pub ghost enum SyntaxErrorModel {
    Lexical(LexErrorModel),
    Grammatical(ParseErrorModel),
}

impl View for SyntaxError {
    type V = SyntaxErrorModel;

    open spec fn view(&self) -> SyntaxErrorModel {
        match self {
            SyntaxError::Lexical(error) => SyntaxErrorModel::Lexical(error@),
            SyntaxError::Grammatical(error) => SyntaxErrorModel::Grammatical(error@),
        }
    }
}

/// The program that a source text spells. The whole text is lexed first, so
/// that a lexical error anywhere in it comes before any error of grammar.
pub open spec fn parse_text(source: Seq<char>) -> Result<Seq<Statement>, SyntaxErrorModel> {
    match tokens_of(source) {
        Err(error) => Err(SyntaxErrorModel::Lexical(error)),
        Ok(tokens) => match parse_tokens(tokens) {
            Ok(program) => Ok(program),
            Err(error) => Err(SyntaxErrorModel::Grammatical(error)),
        },
    }
}

/// Whether an executable result of parsing a source text is the one that
/// the language's rules give.
pub open spec fn source_agrees(
    result: Result<ProgramNode, SyntaxError>,
    outcome: Result<Seq<Statement>, SyntaxErrorModel>,
) -> bool {
    match outcome {
        Ok(model) => result matches Ok(program) && program@ == model,
        Err(model) => result matches Err(error) && error@ == model,
    }
}

/// Lexes and parses a source text.
pub fn parse_source(source: &str) -> (result: Result<ProgramNode, SyntaxError>)
    ensures
        source_agrees(result, parse_text(source@)),
{
    let tokens = match lex(source) {
        Ok(tokens) => tokens,
        Err(error) => {
            return Err(SyntaxError::Lexical(error));
        },
    };
    let mut parser = Parser::new(tokens);
    match parser.parse_program() {
        Ok(program) => Ok(program),
        Err(error) => Err(SyntaxError::Grammatical(error)),
    }
}

/// Parsing is deterministic: two results of parsing texts of the same
/// characters are the same program, or the same error.
pub proof fn lemma_parsing_is_deterministic(
    first_source: Seq<char>,
    first: Result<ProgramNode, SyntaxError>,
    second_source: Seq<char>,
    second: Result<ProgramNode, SyntaxError>,
)
    requires
        first_source == second_source,
        source_agrees(first, parse_text(first_source)),
        source_agrees(second, parse_text(second_source)),
    ensures
        first is Ok <==> second is Ok,
        first is Ok ==> first->Ok_0@ == second->Ok_0@,
        first is Err ==> first->Err_0@ == second->Err_0@,
{
}


/// The text of a syntax error: that of the lexical or grammatical error in
/// it.
pub open spec fn syntax_error_text(error: SyntaxErrorModel) -> Seq<char> {
    match error {
        SyntaxErrorModel::Lexical(error) => lex_error_text(error),
        SyntaxErrorModel::Grammatical(error) => parse_error_text(error),
    }
}

impl SyntaxError {
    /// The error as one line of text.
    pub fn to_string(&self) -> (text: String)
        ensures
            text@ == syntax_error_text(self@),
    {
        match self {
            SyntaxError::Lexical(error) => error.to_string(),
            SyntaxError::Grammatical(error) => error.to_string(),
        }
    }
}

} // verus!
