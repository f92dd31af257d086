use vstd::prelude::*;

verus! {

/// The kinds of token that the lexer produces.
#[derive(Debug, Clone, Copy, PartialEq, Eq, Structural)]
pub enum TokenKind {
    Identifier,
    Number,
    Let,
    Plus,
    Minus,
    Star,
    Slash,
    Equal,
    Semicolon,
    LeftParenthesis,
    RightParenthesis,
    EndOfFile,
}

/// A token together with the place in the source where it starts.
/// Lines and columns count from one.
#[derive(Debug, PartialEq, Eq)]
pub struct Token {
    pub kind: TokenKind,
    pub text: String,
    pub line_number: usize,
    pub column_number: usize,
}

/// The mathematical value of a [`Token`]: its text as a sequence of
/// characters, its position as natural numbers.
pub ghost struct TokenModel {
    pub kind: TokenKind,
    pub text: Seq<char>,
    pub line_number: nat,
    pub column_number: nat,
}

impl View for Token {
    type V = TokenModel;

    open spec fn view(&self) -> TokenModel {
        TokenModel {
            kind: self.kind,
            text: self.text@,
            line_number: self.line_number as nat,
            column_number: self.column_number as nat,
        }
    }
}

impl Clone for Token {
    fn clone(&self) -> (copy: Self)
        ensures
            copy@ == self@,
    {
        Token {
            kind: self.kind,
            text: self.text.clone(),
            line_number: self.line_number,
            column_number: self.column_number,
        }
    }
}

/// The models of a sequence of tokens, one for one.
pub open spec fn token_models(tokens: Seq<Token>) -> Seq<TokenModel> {
    Seq::new(tokens.len(), |i: int| tokens[i]@)
}


/// The name of a kind of token.
pub open spec fn kind_name(kind: TokenKind) -> Seq<char> {
    match kind {
        TokenKind::Identifier => "Identifier"@,
        TokenKind::Number => "Number"@,
        TokenKind::Let => "Let"@,
        TokenKind::Plus => "Plus"@,
        TokenKind::Minus => "Minus"@,
        TokenKind::Star => "Star"@,
        TokenKind::Slash => "Slash"@,
        TokenKind::Equal => "Equal"@,
        TokenKind::Semicolon => "Semicolon"@,
        TokenKind::LeftParenthesis => "LeftParenthesis"@,
        TokenKind::RightParenthesis => "RightParenthesis"@,
        TokenKind::EndOfFile => "EndOfFile"@,
    }
}

impl TokenKind {
    /// The name of the kind.
    pub fn name(&self) -> (name: &'static str)
        ensures
            name@ == kind_name(*self),
    {
        match self {
            TokenKind::Identifier => "Identifier",
            TokenKind::Number => "Number",
            TokenKind::Let => "Let",
            TokenKind::Plus => "Plus",
            TokenKind::Minus => "Minus",
            TokenKind::Star => "Star",
            TokenKind::Slash => "Slash",
            TokenKind::Equal => "Equal",
            TokenKind::Semicolon => "Semicolon",
            TokenKind::LeftParenthesis => "LeftParenthesis",
            TokenKind::RightParenthesis => "RightParenthesis",
            TokenKind::EndOfFile => "EndOfFile",
        }
    }
}

} // verus!
