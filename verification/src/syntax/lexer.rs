use crate::syntax::token::{token_models, Token, TokenKind, TokenModel};
use crate::text::{
    byte_count, column_at, decimal_text, is_digit, lemma_position_bounds, line_at, push_decimal,
};
use vstd::prelude::*;
use vstd::string::StringExecFns;
use vstd::std_specs::iter::IteratorSpec;

verus! {

/// A character that starts no token, with the place where it stands.
#[derive(Debug, Clone, Copy, PartialEq, Eq)]
pub struct LexError {
    pub character: char,
    pub line_number: usize,
    pub column_number: usize,
}

/// The mathematical value of a [`LexError`].
pub ghost struct LexErrorModel {
    pub character: char,
    pub line_number: nat,
    pub column_number: nat,
}

impl View for LexError {
    type V = LexErrorModel;

    open spec fn view(&self) -> LexErrorModel {
        LexErrorModel {
            character: self.character,
            line_number: self.line_number as nat,
            column_number: self.column_number as nat,
        }
    }
}

/// Space, tab, carriage return and newline separate tokens.
pub open spec fn is_whitespace(character: char) -> bool {
    character == ' ' || character == '\t' || character == '\r' || character == '\n'
}

/// An identifier starts with an ASCII letter or an underscore.
pub open spec fn is_identifier_start(character: char) -> bool {
    ('a' <= character <= 'z') || ('A' <= character <= 'Z') || character == '_'
}

/// An identifier goes on with ASCII letters, digits and underscores.
pub open spec fn is_identifier_part(character: char) -> bool {
    is_identifier_start(character) || is_digit(character)
}

/// The kind of the token that a single symbol character makes, if any.
pub open spec fn symbol_kind(character: char) -> Option<TokenKind> {
    if character == '+' {
        Some(TokenKind::Plus)
    } else if character == '-' {
        Some(TokenKind::Minus)
    } else if character == '*' {
        Some(TokenKind::Star)
    } else if character == '/' {
        Some(TokenKind::Slash)
    } else if character == '=' {
        Some(TokenKind::Equal)
    } else if character == ';' {
        Some(TokenKind::Semicolon)
    } else if character == '(' {
        Some(TokenKind::LeftParenthesis)
    } else if character == ')' {
        Some(TokenKind::RightParenthesis)
    } else {
        None
    }
}

/// The classes of character of which the lexer consumes maximal runs.
#[derive(Debug, Clone, Copy, PartialEq, Eq, Structural)]
pub enum CharacterClass {
    Whitespace,
    IdentifierPart,
    Digit,
}

/// Whether a character belongs to a class.
pub open spec fn in_class(class: CharacterClass, character: char) -> bool {
    match class {
        CharacterClass::Whitespace => is_whitespace(character),
        CharacterClass::IdentifierPart => is_identifier_part(character),
        CharacterClass::Digit => is_digit(character),
    }
}

/// The end of the maximal run of characters of one class that starts at
/// `from`: the first offset at or after `from` whose character is not of the
/// class, or the length of the source.
pub open spec fn run_end(source: Seq<char>, from: int, class: CharacterClass) -> int
    decreases source.len() - from,
{
    if 0 <= from < source.len() && in_class(class, source[from]) {
        run_end(source, from + 1, class)
    } else {
        from
    }
}

/// The text of the keyword `let`.
pub open spec fn let_keyword() -> Seq<char> {
    seq!['l', 'e', 't']
}

/// What one step of lexing yields: a token or an error, and the offset at
/// which the next step starts.
pub ghost struct Scan {
    pub outcome: Result<TokenModel, LexErrorModel>,
    pub next: int,
}

/// One step of lexing from `from`. Whitespace is skipped; at the end of the
/// source stands an end-of-file token with no text; a letter or underscore
/// starts an identifier, which is the keyword `let` where its text is
/// exactly that; a digit starts a number; one of the eight symbols is a
/// token by itself; any other character is an error, and lexing goes on
/// behind it.
pub open spec fn scan(source: Seq<char>, from: int) -> Scan {
    let start = run_end(source, from, CharacterClass::Whitespace);
    let line_number = line_at(source, start);
    let column_number = column_at(source, start);
    if !(0 <= start < source.len()) {
        Scan {
            outcome: Ok(
                TokenModel { kind: TokenKind::EndOfFile, text: Seq::empty(), line_number, column_number },
            ),
            next: start,
        }
    } else if is_identifier_start(source[start]) {
        let end = run_end(source, start, CharacterClass::IdentifierPart);
        let text = source.subrange(start, end);
        let kind = if text == let_keyword() {
            TokenKind::Let
        } else {
            TokenKind::Identifier
        };
        Scan { outcome: Ok(TokenModel { kind, text, line_number, column_number }), next: end }
    } else if is_digit(source[start]) {
        let end = run_end(source, start, CharacterClass::Digit);
        let text = source.subrange(start, end);
        Scan {
            outcome: Ok(TokenModel { kind: TokenKind::Number, text, line_number, column_number }),
            next: end,
        }
    } else {
        match symbol_kind(source[start]) {
            Some(kind) => Scan {
                outcome: Ok(TokenModel { kind, text: seq![source[start]], line_number, column_number }),
                next: start + 1,
            },
            None => Scan {
                outcome: Err(LexErrorModel { character: source[start], line_number, column_number }),
                next: start + 1,
            },
        }
    }
}

/// A run ends at or after its start and within the source.
pub proof fn lemma_run_end_bounds(source: Seq<char>, from: int, class: CharacterClass)
    requires
        0 <= from <= source.len(),
    ensures
        from <= run_end(source, from, class) <= source.len(),
        run_end(source, from, class) < source.len() ==> !in_class(
            class,
            source[run_end(source, from, class)],
        ),
        forall|i: int| from <= i < run_end(source, from, class) ==> in_class(class, #[trigger] source[i]),
    decreases source.len() - from,
{
    if from < source.len() && in_class(class, source[from]) {
        lemma_run_end_bounds(source, from + 1, class);
    }
}

/// The tokens of the source from `from` on, the end-of-file token last; or
/// the first error.
pub open spec fn tokens_from(source: Seq<char>, from: int) -> Result<Seq<TokenModel>, LexErrorModel>
    decreases source.len() - from,
{
    let step = scan(source, from);
    match step.outcome {
        Err(error) => Err(error),
        Ok(token) => if token.kind == TokenKind::EndOfFile || !(0 <= from) {
            Ok(seq![token])
        } else {
            proof {
                lemma_scan_advances(source, from);
            }
            match tokens_from(source, step.next) {
                Ok(rest) => Ok(seq![token] + rest),
                Err(error) => Err(error),
            }
        },
    }
}

/// The tokens of a whole source.
pub open spec fn tokens_of(source: Seq<char>) -> Result<Seq<TokenModel>, LexErrorModel> {
    tokens_from(source, 0)
}

/// Every step but the one that reaches the end of the source consumes at
/// least one character, and no step leaves the source.
pub proof fn lemma_scan_advances(source: Seq<char>, from: int)
    requires
        0 <= from,
    ensures
        from <= scan(source, from).next,
        from <= source.len() ==> scan(source, from).next <= source.len(),
        !(scan(source, from).outcome matches Ok(token) && token.kind == TokenKind::EndOfFile) ==> from
            < scan(source, from).next <= source.len(),
{
    if from <= source.len() {
        lemma_run_end_bounds(source, from, CharacterClass::Whitespace);
        let start = run_end(source, from, CharacterClass::Whitespace);
        if start < source.len() {
            lemma_run_end_bounds(source, start, CharacterClass::IdentifierPart);
            lemma_run_end_bounds(source, start, CharacterClass::Digit);
            lemma_run_end_bounds(source, start + 1, CharacterClass::IdentifierPart);
            lemma_run_end_bounds(source, start + 1, CharacterClass::Digit);
        }
    }
}

/// Once the end of the source is reached, every further step yields the same
/// end-of-file token and stays there.
pub proof fn lemma_end_of_file_repeats(source: Seq<char>, from: int)
    requires
        0 <= from <= source.len(),
        scan(source, from).outcome matches Ok(token) && token.kind == TokenKind::EndOfFile,
    ensures
        scan(source, scan(source, from).next) == scan(source, from),
{
    lemma_run_end_bounds(source, from, CharacterClass::Whitespace);
    let start = run_end(source, from, CharacterClass::Whitespace);
    assert(start == source.len()) by {
        if start < source.len() {
            let character = source[start];
            assert(symbol_kind(character) is Some ==> (scan(source, from).outcome matches Ok(token)
                && token.kind != TokenKind::EndOfFile));
        }
    }
}

/// Where the lexer stands: an offset into the source, with its line and
/// column.
#[derive(Debug, Clone, Copy)]
struct Cursor {
    position: usize,
    line_number: usize,
    column_number: usize,
}

/// A lexer over one source text. It keeps the characters of the source and a
/// cursor, and hands out one token per call of [`Lexer::next_token`].
pub struct Lexer {
    characters: Vec<char>,
    cursor: Cursor,
}

impl Lexer {
    #[verifier::type_invariant]
    spec fn well_formed(&self) -> bool {
        &&& self.characters@.len() < usize::MAX
        &&& self.cursor.position <= self.characters@.len()
        &&& self.cursor.line_number == line_at(self.characters@, self.cursor.position as int)
        &&& self.cursor.column_number == column_at(self.characters@, self.cursor.position as int)
    }

    /// The characters of the source that this lexer reads.
    pub closed spec fn source(&self) -> Seq<char> {
        self.characters@
    }

    /// The number of characters consumed so far.
    pub closed spec fn offset(&self) -> int {
        self.cursor.position as int
    }

    /// A lexer at the start of `source`.
    pub fn new(source: &str) -> (lexer: Self)
        ensures
            lexer.source() == source@,
            lexer.offset() == 0,
    {
        let mut characters: Vec<char> = Vec::with_capacity(byte_count(source));
        for character in it: source.chars()
            invariant
                characters@ == it.seq().take(it.index() as int),
                it.seq() == source@,
        {
            characters.push(character);
        }
        Lexer { characters, cursor: Cursor { position: 0, line_number: 1, column_number: 1 } }
    }

    /// The character under the cursor, if the source has not ended.
    fn current(&self) -> (character: Option<char>)
        ensures
            self.offset() <= self.source().len(),
            character == if self.offset() < self.source().len() {
                Some(self.source()[self.offset()])
            } else {
                None
            },
    {
        proof {
            use_type_invariant(self);
        }
        if self.cursor.position < self.characters.len() {
            Some(self.characters[self.cursor.position])
        } else {
            None
        }
    }

    /// Moves the cursor over one character, if there is one. A newline starts
    /// a new line at column one.
    fn advance(&mut self)
        ensures
            final(self).source() == old(self).source(),
            final(self).offset() == if old(self).offset() < old(self).source().len() {
                old(self).offset() + 1
            } else {
                old(self).offset()
            },
    {
        proof {
            use_type_invariant(&*self);
        }
        if self.cursor.position < self.characters.len() {
            let character = self.characters[self.cursor.position];
            proof {
                lemma_position_bounds(self.characters@, self.cursor.position as int);
            }
            let next = if character == '\n' {
                Cursor {
                    position: self.cursor.position + 1,
                    line_number: self.cursor.line_number + 1,
                    column_number: 1,
                }
            } else {
                Cursor {
                    position: self.cursor.position + 1,
                    line_number: self.cursor.line_number,
                    column_number: self.cursor.column_number + 1,
                }
            };
            self.cursor = next;
        }
    }

    /// Moves the cursor to the end of the run of characters of `class` that
    /// starts under it.
    fn consume_run(&mut self, class: CharacterClass)
        ensures
            final(self).source() == old(self).source(),
            final(self).offset() == run_end(old(self).source(), old(self).offset(), class),
    {
        proof {
            use_type_invariant(&*self);
        }
        loop
            invariant
                self.source() == old(self).source(),
                old(self).offset() <= self.offset() <= self.source().len(),
                run_end(self.source(), self.offset(), class) == run_end(
                    old(self).source(),
                    old(self).offset(),
                    class,
                ),
            ensures
                self.offset() == run_end(old(self).source(), old(self).offset(), class),
            decreases self.source().len() - self.offset(),
        {
            match self.current() {
                Some(character) => {
                    if belongs_to(class, character) {
                        self.advance();
                    } else {
                        break ;
                    }
                },
                None => {
                    break ;
                },
            }
        }
    }

    /// Skips the whitespace under the cursor.
    fn skip_whitespace(&mut self)
        ensures
            final(self).source() == old(self).source(),
            final(self).offset() == run_end(
                old(self).source(),
                old(self).offset(),
                CharacterClass::Whitespace,
            ),
    {
        self.consume_run(CharacterClass::Whitespace)
    }

    /// The characters from `start` up to `end`, as a string.
    fn text_between(&self, start: usize, end: usize) -> (text: String)
        requires
            start <= end <= self.source().len(),
        ensures
            text@ == self.source().subrange(start as int, end as int),
    {
        let mut text = String::new();
        let mut index: usize = start;
        while index < end
            invariant
                start <= index <= end <= self.characters@.len(),
                text@ == self.characters@.subrange(start as int, index as int),
            decreases end - index,
        {
            text.push(self.characters[index]);
            index += 1;
            assert(self.characters@.subrange(start as int, index as int)
                == self.characters@.subrange(start as int, index as int - 1).push(
                self.characters@[index as int - 1],
            ));
        }
        text
    }

    /// Whether the characters from `start` up to `end` spell `let`.
    fn spells_let(&self, start: usize, end: usize) -> (yes: bool)
        requires
            start <= end <= self.source().len(),
        ensures
            yes == (self.source().subrange(start as int, end as int) == let_keyword()),
    {
        let yes = end - start == 3 && self.characters[start] == 'l' && self.characters[start + 1]
            == 'e' && self.characters[start + 2] == 't';
        proof {
            let text = self.characters@.subrange(start as int, end as int);
            if yes {
                assert(text =~= let_keyword());
            } else if text == let_keyword() {
                assert(text.len() == 3);
                assert(text[0] == 'l' && text[1] == 'e' && text[2] == 't');
            }
        }
        yes
    }

    /// Lexes the identifier or keyword that starts under the cursor.
    fn lex_identifier(&mut self, line: usize, column: usize) -> (token: Token)
        requires
            old(self).offset() < old(self).source().len(),
        ensures
            final(self).source() == old(self).source(),
            final(self).offset() == run_end(
                old(self).source(),
                old(self).offset(),
                CharacterClass::IdentifierPart,
            ),
            token.text@ == old(self).source().subrange(old(self).offset(), final(self).offset()),
            token.kind == if token.text@ == let_keyword() {
                TokenKind::Let
            } else {
                TokenKind::Identifier
            },
            token.line_number == line,
            token.column_number == column,
    {
        proof {
            use_type_invariant(&*self);
            lemma_run_end_bounds(self.source(), self.offset(), CharacterClass::IdentifierPart);
        }
        let start_position = self.cursor.position;
        self.consume_run(CharacterClass::IdentifierPart);
        proof {
            use_type_invariant(&*self);
        }
        let text = self.text_between(start_position, self.cursor.position);
        let kind = if self.spells_let(start_position, self.cursor.position) {
            TokenKind::Let
        } else {
            TokenKind::Identifier
        };
        Token { kind, text, line_number: line, column_number: column }
    }

    /// Lexes the number that starts under the cursor.
    fn lex_number(&mut self, line: usize, column: usize) -> (token: Token)
        requires
            old(self).offset() < old(self).source().len(),
        ensures
            final(self).source() == old(self).source(),
            final(self).offset() == run_end(
                old(self).source(),
                old(self).offset(),
                CharacterClass::Digit,
            ),
            token.text@ == old(self).source().subrange(old(self).offset(), final(self).offset()),
            token.kind == TokenKind::Number,
            token.line_number == line,
            token.column_number == column,
    {
        proof {
            use_type_invariant(&*self);
            lemma_run_end_bounds(self.source(), self.offset(), CharacterClass::Digit);
        }
        let start_position = self.cursor.position;
        self.consume_run(CharacterClass::Digit);
        proof {
            use_type_invariant(&*self);
        }
        let text = self.text_between(start_position, self.cursor.position);
        Token { kind: TokenKind::Number, text, line_number: line, column_number: column }
    }

    /// Consumes the character under the cursor and makes the token of that
    /// symbol, or the error for a character that is none.
    fn lex_symbol(&mut self, character: char, line: usize, column: usize) -> (result: Result<
        Token,
        LexError,
    >)
        requires
            old(self).offset() < old(self).source().len(),
            character == old(self).source()[old(self).offset()],
        ensures
            final(self).source() == old(self).source(),
            final(self).offset() == old(self).offset() + 1,
            match symbol_kind(character) {
                Some(kind) => result matches Ok(token) && token.kind == kind && token.text@
                    == seq![character] && token.line_number == line && token.column_number
                    == column,
                None => result == Err::<Token, LexError>(
                    LexError { character, line_number: line, column_number: column },
                ),
            },
    {
        self.advance();
        let kind = match character {
            '+' => TokenKind::Plus,
            '-' => TokenKind::Minus,
            '*' => TokenKind::Star,
            '/' => TokenKind::Slash,
            '=' => TokenKind::Equal,
            ';' => TokenKind::Semicolon,
            '(' => TokenKind::LeftParenthesis,
            ')' => TokenKind::RightParenthesis,
            _ => {
                return Err(LexError { character, line_number: line, column_number: column });
            },
        };
        let mut text = String::new();
        text.push(character);
        assert(text@ =~= seq![character]);
        Ok(Token { kind, text, line_number: line, column_number: column })
    }

    /// The next token of the source, or the error for a character that
    /// starts none. After the end of the source every call returns an
    /// end-of-file token.
    pub fn next_token(&mut self) -> (result: Result<Token, LexError>)
        ensures
            final(self).source() == old(self).source(),
            final(self).offset() == scan(old(self).source(), old(self).offset()).next,
            match scan(old(self).source(), old(self).offset()).outcome {
                Ok(model) => result matches Ok(token) && token@ == model,
                Err(model) => result matches Err(error) && error@ == model,
            },
    {
        proof {
            use_type_invariant(&*self);
            lemma_run_end_bounds(self.source(), self.offset(), CharacterClass::Whitespace);
        }
        self.skip_whitespace();
        proof {
            use_type_invariant(&*self);
        }
        let token_line = self.cursor.line_number;
        let token_column = self.cursor.column_number;
        let current_character = match self.current() {
            Some(character) => character,
            None => {
                return Ok(
                    Token {
                        kind: TokenKind::EndOfFile,
                        text: String::new(),
                        line_number: token_line,
                        column_number: token_column,
                    },
                );
            },
        };
        if is_identifier_start_character(current_character) {
            return Ok(self.lex_identifier(token_line, token_column));
        }
        if is_digit_character(current_character) {
            return Ok(self.lex_number(token_line, token_column));
        }
        self.lex_symbol(current_character, token_line, token_column)
    }
}

/// Whether `character` is an ASCII digit.
fn is_digit_character(character: char) -> (yes: bool)
    ensures
        yes == is_digit(character),
{
    '0' <= character && character <= '9'
}

/// Whether `character` can start an identifier.
fn is_identifier_start_character(character: char) -> (yes: bool)
    ensures
        yes == is_identifier_start(character),
{
    ('a' <= character && character <= 'z') || ('A' <= character && character <= 'Z') || character
        == '_'
}

/// Whether `character` belongs to `class`.
fn belongs_to(class: CharacterClass, character: char) -> (yes: bool)
    ensures
        yes == in_class(class, character),
{
    match class {
        CharacterClass::Whitespace => character == ' ' || character == '\t' || character == '\r'
            || character == '\n',
        CharacterClass::IdentifierPart => is_identifier_start_character(character)
            || is_digit_character(character),
        CharacterClass::Digit => is_digit_character(character),
    }
}


/// Whether an executable result of lexing a whole source is the one that
/// the rules of lexing give.
pub open spec fn tokens_agree(
    result: Result<Vec<Token>, LexError>,
    outcome: Result<Seq<TokenModel>, LexErrorModel>,
) -> bool {
    match outcome {
        Ok(models) => result matches Ok(tokens) && token_models(tokens@) == models,
        Err(model) => result matches Err(error) && error@ == model,
    }
}

/// `found` in front of what lexing the rest yields.
pub open spec fn preceded_by(
    found: Seq<TokenModel>,
    rest: Result<Seq<TokenModel>, LexErrorModel>,
) -> Result<Seq<TokenModel>, LexErrorModel> {
    match rest {
        Ok(tokens) => Ok(found + tokens),
        Err(error) => Err(error),
    }
}

/// The tokens of `source`, the end-of-file token last, or the first
/// character that starts no token.
pub fn lex(source: &str) -> (result: Result<Vec<Token>, LexError>)
    ensures
        tokens_agree(result, tokens_of(source@)),
{
    let mut lexer = Lexer::new(source);
    let mut tokens: Vec<Token> = Vec::new();
    loop
        invariant
            lexer.source() == source@,
            0 <= lexer.offset(),
            tokens_of(source@) == preceded_by(
                token_models(tokens@),
                tokens_from(source@, lexer.offset()),
            ),
        decreases source@.len() - lexer.offset(),
    {
        let ghost before = token_models(tokens@);
        let ghost from = lexer.offset();
        proof {
            lemma_scan_advances(source@, from);
        }
        let token = match lexer.next_token() {
            Ok(token) => token,
            Err(error) => {
                return Err(error);
            },
        };
        let end = token.kind == TokenKind::EndOfFile;
        tokens.push(token);
        proof {
            let step = scan(source@, from);
            assert(token_models(tokens@) =~= before.push(step.outcome->Ok_0));
            assert(before + seq![step.outcome->Ok_0] =~= before.push(step.outcome->Ok_0));
            if !end {
                match tokens_from(source@, step.next) {
                    Ok(rest) => {
                        assert(before + (seq![step.outcome->Ok_0] + rest) =~= before.push(
                            step.outcome->Ok_0,
                        ) + rest);
                    },
                    Err(_) => {},
                }
            }
        }
        if end {
            return Ok(tokens);
        }
    }
}

/// The texts of the tokens, one after the other.
pub open spec fn joined_text(tokens: Seq<TokenModel>) -> Seq<char>
    decreases tokens.len(),
{
    if tokens.len() == 0 {
        Seq::empty()
    } else {
        tokens[0].text + joined_text(tokens.skip(1))
    }
}

/// The test for a character that is not whitespace.
pub open spec fn is_visible() -> spec_fn(char) -> bool {
    |character: char| !is_whitespace(character)
}

/// Filtering keeps nothing of a sequence in which no element passes.
proof fn lemma_filter_drops_all(text: Seq<char>, keep: spec_fn(char) -> bool)
    requires
        forall|i: int| 0 <= i < text.len() ==> !keep(#[trigger] text[i]),
    ensures
        text.filter(keep) == Seq::<char>::empty(),
    decreases text.len(),
{
    reveal(Seq::filter);
    if text.len() > 0 {
        assert forall|i: int| 0 <= i < text.drop_last().len() implies !keep(
            #[trigger] text.drop_last()[i],
        ) by {
            assert(text.drop_last()[i] == text[i]);
        }
        lemma_filter_drops_all(text.drop_last(), keep);
    }
}

/// Filtering keeps the whole of a sequence in which every element passes.
proof fn lemma_filter_keeps_all(text: Seq<char>, keep: spec_fn(char) -> bool)
    requires
        forall|i: int| 0 <= i < text.len() ==> keep(#[trigger] text[i]),
    ensures
        text.filter(keep) == text,
    decreases text.len(),
{
    reveal(Seq::filter);
    if text.len() > 0 {
        assert forall|i: int| 0 <= i < text.drop_last().len() implies keep(
            #[trigger] text.drop_last()[i],
        ) by {
            assert(text.drop_last()[i] == text[i]);
        }
        lemma_filter_keeps_all(text.drop_last(), keep);
        assert(text.drop_last().push(text.last()) =~= text);
    }
}

/// From any offset on, the texts of the tokens spell the characters of the
/// rest of the source that are not whitespace.
proof fn lemma_tokens_spell_rest(source: Seq<char>, from: int)
    requires
        0 <= from <= source.len(),
    ensures
        tokens_from(source, from) matches Ok(tokens) ==> joined_text(tokens) == source.skip(
            from,
        ).filter(is_visible()),
    decreases source.len() - from,
{
    let step = scan(source, from);
    if let Ok(token) = step.outcome {
        let start = run_end(source, from, CharacterClass::Whitespace);
        lemma_run_end_bounds(source, from, CharacterClass::Whitespace);
        lemma_scan_advances(source, from);
        if start < source.len() {
            lemma_run_end_bounds(source, start, CharacterClass::IdentifierPart);
            lemma_run_end_bounds(source, start, CharacterClass::Digit);
        }
        assert(start <= step.next <= source.len());
        let blank = source.subrange(from, start);
        let text = source.subrange(start, step.next);
        let rest = source.skip(step.next);
        assert(source.skip(from) =~= blank + (text + rest));
        Seq::filter_distributes_over_add(blank, text + rest, is_visible());
        Seq::filter_distributes_over_add(text, rest, is_visible());
        assert forall|i: int| 0 <= i < blank.len() implies !(is_visible())(#[trigger] blank[i]) by {
            assert(blank[i] == source[from + i]);
        }
        lemma_filter_drops_all(blank, is_visible());
        assert(token.text == text && text.filter(is_visible()) == text) by {
            if start < source.len() {
                lemma_run_end_bounds(source, start, CharacterClass::IdentifierPart);
                lemma_run_end_bounds(source, start, CharacterClass::Digit);
                assert forall|i: int| 0 <= i < text.len() implies (is_visible())(#[trigger] text[i]) by {
                    assert(text[i] == source[start + i]);
                }
                assert(token.text =~= text);
            } else {
                assert(token.text =~= text);
            }
            lemma_filter_keeps_all(text, is_visible());
        }
        if token.kind == TokenKind::EndOfFile {
            assert(start == source.len()) by {
                if start < source.len() {
                    assert(symbol_kind(source[start]) is Some ==> token.kind != TokenKind::EndOfFile);
                }
            }
            assert(rest =~= Seq::<char>::empty());
            reveal(Seq::filter);
            assert(seq![token].skip(1) =~= Seq::<TokenModel>::empty());
            assert(joined_text(seq![token]) =~= token.text) by {
                assert(joined_text(seq![token].skip(1)) =~= Seq::<char>::empty());
            }
            assert(blank.filter(is_visible()) + (text.filter(is_visible()) + rest.filter(
                is_visible(),
            )) =~= text);
        } else {
            lemma_tokens_spell_rest(source, step.next);
            if let Ok(others) = tokens_from(source, step.next) {
                assert((seq![token] + others).skip(1) =~= others);
                assert(blank.filter(is_visible()) + (text.filter(is_visible()) + rest.filter(
                    is_visible(),
                )) =~= text + rest.filter(is_visible()));
            }
        }
    }
}

/// Lexing loses nothing but whitespace: where a source lexes without
/// error, the texts of its tokens, one after the other, are the characters
/// of the source that are not whitespace, in their order.
pub proof fn lemma_lexing_keeps_visible_text(source: Seq<char>)
    ensures
        tokens_of(source) matches Ok(tokens) ==> joined_text(tokens) == source.filter(is_visible()),
{
    lemma_tokens_spell_rest(source, 0);
    assert(source.skip(0) =~= source);
}


/// The text of a lexical error: the character in quotes, then its line and
/// column.
pub open spec fn lex_error_text(error: LexErrorModel) -> Seq<char> {
    "Unexpected character '"@.push(error.character) + "' at "@ + decimal_text(error.line_number)
        + ":"@ + decimal_text(error.column_number)
}

impl LexError {
    /// The error as one line of text.
    pub fn to_string(&self) -> (text: String)
        ensures
            text@ == lex_error_text(self@),
    {
        let mut text = String::from_str("Unexpected character '");
        text.push(self.character);
        text.append("' at ");
        push_decimal(&mut text, self.line_number as u64);
        text.append(":");
        push_decimal(&mut text, self.column_number as u64);
        text
    }
}

} // verus!
