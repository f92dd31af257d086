use crate::amarok::token::{token_models, Token, TokenModel, TokenType};
use crate::text::{byte_count, decimal_text, is_digit, lemma_position_bounds, line_at, push_decimal};
use vstd::prelude::*;
use vstd::std_specs::iter::IteratorSpec;
use vstd::string::StringExecFns;

verus! {

/// The ASCII letters and the underscore.
pub open spec fn is_alphabetic(character: char) -> bool {
    ('a' <= character <= 'z') || ('A' <= character <= 'Z') || character == '_'
}

/// The characters of which identifiers are made.
pub open spec fn is_alphanumeric(character: char) -> bool {
    is_alphabetic(character) || is_digit(character)
}

/// The runs of characters that the lexer consumes whole.
#[derive(Debug, Clone, Copy, PartialEq, Eq, Structural)]
pub enum Run {
    /// Digits.
    Digits,
    /// Letters, digits and underscores.
    Word,
    /// What a comment holds: anything but a newline.
    Comment,
    /// What a string holds: anything but a double quote.
    Text,
}

/// Whether a character goes on a run.
pub open spec fn in_run(run: Run, character: char) -> bool {
    match run {
        Run::Digits => is_digit(character),
        Run::Word => is_alphanumeric(character),
        Run::Comment => character != '\n',
        Run::Text => character != '"',
    }
}

/// The end of the longest run that starts at `from`: the first offset at
/// or after `from` whose character does not go on the run, or the length
/// of the source.
pub open spec fn run_end(source: Seq<char>, from: int, run: Run) -> int
    decreases source.len() - from,
{
    if 0 <= from < source.len() && in_run(run, source[from]) {
        run_end(source, from + 1, run)
    } else {
        from
    }
}

/// Whether the character behind the one at `at` is `character`.
pub open spec fn followed_by(source: Seq<char>, at: int, character: char) -> bool {
    at + 1 < source.len() && source[at + 1] == character
}

/// The kind of an identifier: that of the keyword that it spells, if any.
/// Keywords are spelt in lower case.
pub open spec fn word_type(lexeme: Seq<char>) -> TokenType {
    if lexeme == "and"@ {
        TokenType::And
    } else if lexeme == "class"@ {
        TokenType::Class
    } else if lexeme == "else"@ {
        TokenType::Else
    } else if lexeme == "false"@ {
        TokenType::False
    } else if lexeme == "for"@ {
        TokenType::For
    } else if lexeme == "fun"@ {
        TokenType::Fun
    } else if lexeme == "if"@ {
        TokenType::If
    } else if lexeme == "nil"@ {
        TokenType::Nil
    } else if lexeme == "or"@ {
        TokenType::Or
    } else if lexeme == "print"@ {
        TokenType::Print
    } else if lexeme == "return"@ {
        TokenType::Return
    } else if lexeme == "super"@ {
        TokenType::Super
    } else if lexeme == "this"@ {
        TokenType::This
    } else if lexeme == "true"@ {
        TokenType::True
    } else if lexeme == "var"@ {
        TokenType::Var
    } else if lexeme == "while"@ {
        TokenType::While
    } else {
        TokenType::Identifier
    }
}

/// What the lexer makes of the characters from one offset on: the kind of
/// the token, or none where the characters make no token, and the offset
/// behind what was consumed.
pub ghost struct Scanned {
    pub token_type: Option<TokenType>,
    pub next: int,
}

/// A token of `length` characters.
pub open spec fn found(token_type: TokenType, start: int, length: int) -> Scanned {
    Scanned { token_type: Some(token_type), next: start + length }
}

/// An operator that is one token with a `=` behind it and another without.
pub open spec fn operator(source: Seq<char>, start: int, long: TokenType, short: TokenType) -> Scanned {
    if followed_by(source, start, '=') {
        found(long, start, 2)
    } else {
        found(short, start, 1)
    }
}

/// The end of the number that starts at `start`: the end of its digits, or
/// of the digits of its fraction where a dot and a digit follow.
pub open spec fn number_end(source: Seq<char>, start: int) -> int {
    let whole = run_end(source, start, Run::Digits);
    if 0 <= whole < source.len() && source[whole] == '.' && whole + 1 < source.len() && is_digit(
        source[whole + 1],
    ) {
        run_end(source, whole + 1, Run::Digits)
    } else {
        whole
    }
}

/// One step of lexing, from a character of the source. Two slashes start a
/// comment that ends before the next newline. A double quote starts a
/// string that ends with the next double quote and may span lines; a string
/// that is not closed makes no token and uses up the source. Whitespace and
/// characters that start nothing make no token.
pub open spec fn scan_one(source: Seq<char>, start: int) -> Scanned {
    let character = source[start];
    if character == '(' {
        found(TokenType::LeftParenthesis, start, 1)
    } else if character == ')' {
        found(TokenType::RightParenthesis, start, 1)
    } else if character == '{' {
        found(TokenType::LeftBrace, start, 1)
    } else if character == '}' {
        found(TokenType::RightBrace, start, 1)
    } else if character == ',' {
        found(TokenType::Comma, start, 1)
    } else if character == '.' {
        found(TokenType::Dot, start, 1)
    } else if character == '-' {
        found(TokenType::Minus, start, 1)
    } else if character == '+' {
        found(TokenType::Plus, start, 1)
    } else if character == ';' {
        found(TokenType::Semicolon, start, 1)
    } else if character == '*' {
        found(TokenType::Star, start, 1)
    } else if character == '!' {
        operator(source, start, TokenType::BangEqual, TokenType::Bang)
    } else if character == '=' {
        operator(source, start, TokenType::EqualEqual, TokenType::Equal)
    } else if character == '<' {
        operator(source, start, TokenType::LessEqual, TokenType::Less)
    } else if character == '>' {
        operator(source, start, TokenType::GreaterEqual, TokenType::Greater)
    } else if character == '/' {
        if followed_by(source, start, '/') {
            Scanned { token_type: None, next: run_end(source, start + 2, Run::Comment) }
        } else {
            found(TokenType::Slash, start, 1)
        }
    } else if character == ' ' || character == '\r' || character == '\t' || character == '\n' {
        Scanned { token_type: None, next: start + 1 }
    } else if character == '"' {
        let close = run_end(source, start + 1, Run::Text);
        if close < source.len() {
            Scanned { token_type: Some(TokenType::String), next: close + 1 }
        } else {
            Scanned { token_type: None, next: close }
        }
    } else if is_digit(character) {
        Scanned { token_type: Some(TokenType::Number), next: number_end(source, start) }
    } else if is_alphabetic(character) {
        let end = run_end(source, start, Run::Word);
        Scanned { token_type: Some(word_type(source.subrange(start, end))), next: end }
    } else {
        Scanned { token_type: None, next: start + 1 }
    }
}

/// The tokens that a step adds: the token found, if any, with the
/// characters consumed as its lexeme and the line on which it ends.
pub open spec fn step_tokens(source: Seq<char>, start: int) -> Seq<TokenModel> {
    let step = scan_one(source, start);
    match step.token_type {
        Some(token_type) => seq![
            TokenModel {
                token_type,
                lexeme: source.subrange(start, step.next),
                line_number: line_at(source, step.next),
            },
        ],
        None => Seq::empty(),
    }
}

/// The token that ends every list of tokens: it has no characters and
/// stands on the last line.
pub open spec fn end_of_file(source: Seq<char>) -> TokenModel {
    TokenModel {
        token_type: TokenType::EndOfFile,
        lexeme: Seq::empty(),
        line_number: line_at(source, source.len() as int),
    }
}

/// The tokens of the source from `start` on, the end-of-file token last.
pub open spec fn scan_from(source: Seq<char>, start: int) -> Seq<TokenModel>
    decreases source.len() - start,
{
    if 0 <= start < source.len() {
        proof {
            lemma_scan_one_advances(source, start);
        }
        step_tokens(source, start) + scan_from(source, scan_one(source, start).next)
    } else {
        seq![end_of_file(source)]
    }
}

/// The tokens of a whole source.
pub open spec fn scan_source(source: Seq<char>) -> Seq<TokenModel> {
    scan_from(source, 0)
}

/// A run ends at or after its start and within the source, every character
/// of it goes on the run, and the character behind it does not.
pub proof fn lemma_run_end(source: Seq<char>, from: int, run: Run)
    requires
        0 <= from <= source.len(),
    ensures
        from <= run_end(source, from, run) <= source.len(),
        run_end(source, from, run) < source.len() ==> !in_run(
            run,
            source[run_end(source, from, run)],
        ),
        forall|i: int| from <= i < run_end(source, from, run) ==> in_run(run, #[trigger] source[i]),
    decreases source.len() - from,
{
    if from < source.len() && in_run(run, source[from]) {
        lemma_run_end(source, from + 1, run);
    }
}

/// Every step consumes at least one character and stays within the source.
pub proof fn lemma_scan_one_advances(source: Seq<char>, start: int)
    requires
        0 <= start < source.len(),
    ensures
        start < scan_one(source, start).next <= source.len(),
{
    lemma_run_end(source, start, Run::Digits);
    lemma_run_end(source, start, Run::Word);
    lemma_run_end(source, start + 1, Run::Text);
    if start + 2 <= source.len() {
        lemma_run_end(source, start + 2, Run::Comment);
    }
    let whole = run_end(source, start, Run::Digits);
    if whole + 1 <= source.len() {
        lemma_run_end(source, whole + 1, Run::Digits);
    }
}

/// What the lexer passes over without a token, beside whitespace and
/// comments, with the line on which it noticed.
#[derive(Debug, Clone, Copy, PartialEq, Eq)]
pub enum LexReport {
    /// A character that starts no token.
    UnexpectedCharacter { line: usize, character: char },
    /// A string whose closing quote is missing. The line is the last of the
    /// source, where the search for the quote ended.
    UnterminatedString { line: usize },
}

/// Whether `character` is one that a step passes over in silence: a space,
/// a tab, a carriage return or a newline.
pub open spec fn is_blank(character: char) -> bool {
    character == ' ' || character == '\r' || character == '\t' || character == '\n'
}

/// What a step from `start` reports: a string that is not closed, or a
/// character that is no whitespace and starts neither a token nor a
/// comment.
pub open spec fn report_at(source: Seq<char>, start: int) -> Option<LexReport> {
    let character = source[start];
    if scan_one(source, start).token_type is Some || is_blank(character) || character == '/' {
        None
    } else if character == '"' {
        Some(LexReport::UnterminatedString { line: line_at(source, source.len() as int) as usize })
    } else {
        Some(LexReport::UnexpectedCharacter { line: line_at(source, start) as usize, character })
    }
}

/// The report of one step, as a list.
pub open spec fn step_reports(source: Seq<char>, start: int) -> Seq<LexReport> {
    match report_at(source, start) {
        Some(report) => seq![report],
        None => Seq::empty(),
    }
}

/// The reports on the source from `start` on, in the order of the source.
pub open spec fn reports_from(source: Seq<char>, start: int) -> Seq<LexReport>
    decreases source.len() - start,
{
    if 0 <= start < source.len() {
        proof {
            lemma_scan_one_advances(source, start);
        }
        step_reports(source, start) + reports_from(source, scan_one(source, start).next)
    } else {
        Seq::empty()
    }
}

/// The text of a report: the line in square brackets, then what was found.
pub open spec fn report_text(report: LexReport) -> Seq<char> {
    match report {
        LexReport::UnexpectedCharacter { line, character } => "[line "@ + decimal_text(line as nat)
            + "] Unexpected character: "@ + seq![character],
        LexReport::UnterminatedString { line } => "[line "@ + decimal_text(line as nat)
            + "] Unterminated string."@,
    }
}

impl LexReport {
    /// The report as one line of text.
    pub fn to_string(&self) -> (text: String)
        ensures
            text@ == report_text(*self),
    {
        let mut text = String::from_str("[line ");
        match self {
            LexReport::UnexpectedCharacter { line, character } => {
                push_decimal(&mut text, *line as u64);
                text.append("] Unexpected character: ");
                text.push(*character);
                assert(text@ =~= report_text(*self));
            },
            LexReport::UnterminatedString { line } => {
                push_decimal(&mut text, *line as u64);
                text.append("] Unterminated string.");
                assert(text@ =~= report_text(*self));
            },
        }
        text
    }
}

/// What lexing gives: the tokens of the source, the end-of-file token
/// last, and the reports on what was passed over.
#[derive(Debug, PartialEq, Eq)]
pub struct Scan {
    pub tokens: Vec<Token>,
    pub reports: Vec<LexReport>,
}

/// A lexer over one source text. It collects the tokens of the source in
/// one pass.
pub struct Lexer {
    source_characters: Vec<char>,
    start_index: usize,
    current_index: usize,
    current_line_number: usize,
    tokens: Vec<Token>,
}

impl Lexer {
    /// The characters of the source.
    pub closed spec fn source(&self) -> Seq<char> {
        self.source_characters@
    }

    /// The number of characters consumed so far.
    pub closed spec fn offset(&self) -> int {
        self.current_index as int
    }

    /// The tokens collected so far.
    pub closed spec fn scanned(&self) -> Seq<TokenModel> {
        token_models(self.tokens@)
    }

    /// The offsets lie within the source, in order.
    pub closed spec fn bounded(&self) -> bool {
        &&& self.source_characters@.len() < usize::MAX
        &&& self.start_index <= self.current_index <= self.source_characters@.len()
    }

    /// The offsets lie within the source, and the line number is that of
    /// the current character.
    pub closed spec fn well_formed(&self) -> bool {
        &&& self.bounded()
        &&& self.current_line_number == line_at(self.source_characters@, self.current_index as int)
    }

    /// A lexer at the start of `source`, with no token yet.
    pub fn new(source: &str) -> (lexer: Self)
        ensures
            lexer.well_formed(),
            lexer.source() == source@,
            lexer.offset() == 0,
            lexer.scanned() == Seq::<TokenModel>::empty(),
    {
        let mut source_characters: Vec<char> = Vec::with_capacity(byte_count(source));
        for character in it: source.chars()
            invariant
                source_characters@ == it.seq().take(it.index() as int),
                it.seq() == source@,
        {
            source_characters.push(character);
        }
        let lexer = Lexer {
            source_characters,
            start_index: 0,
            current_index: 0,
            current_line_number: 1,
            tokens: Vec::new(),
        };
        assert(lexer.scanned() =~= Seq::<TokenModel>::empty());
        lexer
    }

    /// The tokens of the source, the end-of-file token last. Characters
    /// that start no token, and a string that is not closed, are passed
    /// over. For a lexer that has scanned nothing yet these are the tokens
    /// of the whole source, [`scan_source`].
    pub fn scan_tokens(self) -> (tokens: Vec<Token>)
        requires
            self.well_formed(),
        ensures
            token_models(tokens@) == self.scanned() + scan_from(self.source(), self.offset()),
    {
        self.scan_with_reports().tokens
    }

    /// The tokens of the source, the end-of-file token last, and a report
    /// on every character that starts no token and on a string that is not
    /// closed, in the order of the source.
    pub fn scan_with_reports(self) -> (scan: Scan)
        requires
            self.well_formed(),
        ensures
            token_models(scan.tokens@) == self.scanned() + scan_from(self.source(), self.offset()),
            scan.reports@ == reports_from(self.source(), self.offset()),
    {
        let ghost source = self.source();
        let ghost before = self.scanned();
        let ghost first = self.offset();
        let mut lexer = self;
        let mut reports: Vec<LexReport> = Vec::new();
        assert(reports@ + reports_from(source, first) =~= reports_from(source, first));
        while !lexer.is_at_end()
            invariant
                lexer.well_formed(),
                lexer.source() == source,
                0 <= lexer.offset() <= source.len(),
                before + scan_from(source, first) == lexer.scanned() + scan_from(
                    source,
                    lexer.offset(),
                ),
                reports_from(source, first) == reports@ + reports_from(source, lexer.offset()),
            decreases source.len() - lexer.offset(),
        {
            let ghost here = lexer.offset();
            let ghost collected = lexer.scanned();
            let ghost reported = reports@;
            lexer.start_index = lexer.current_index;
            proof {
                lemma_scan_one_advances(source, here);
            }
            match lexer.scan_single_token() {
                Some(report) => {
                    reports.push(report);
                },
                None => {},
            }
            proof {
                assert(reports@ =~= reported + step_reports(source, here));
                assert(reported + (step_reports(source, here) + reports_from(
                    source,
                    scan_one(source, here).next,
                )) =~= reported + step_reports(source, here) + reports_from(
                    source,
                    scan_one(source, here).next,
                ));
                assert(collected + (step_tokens(source, here) + scan_from(
                    source,
                    scan_one(source, here).next,
                )) =~= collected + step_tokens(source, here) + scan_from(
                    source,
                    scan_one(source, here).next,
                ));
            }
        }
        let ghost collected = lexer.scanned();
        lexer.tokens.push(
            Token::new(TokenType::EndOfFile, String::new(), lexer.current_line_number),
        );
        proof {
            assert(lexer.scanned() =~= collected.push(end_of_file(source)));
            assert(collected + seq![end_of_file(source)] =~= collected.push(end_of_file(source)));
            assert(reports@ + Seq::<LexReport>::empty() =~= reports@);
        }
        Scan { tokens: lexer.tokens, reports }
    }

    /// Lexes what starts at the current character, and gives the report
    /// on it where it makes no token and is neither whitespace nor a
    /// comment.
    fn scan_single_token(&mut self) -> (report: Option<LexReport>)
        requires
            old(self).well_formed(),
            old(self).start_index == old(self).current_index,
            old(self).offset() < old(self).source().len(),
        ensures
            report == report_at(old(self).source(), old(self).offset()),
            final(self).well_formed(),
            final(self).source() == old(self).source(),
            final(self).offset() == scan_one(old(self).source(), old(self).offset()).next,
            final(self).scanned() == old(self).scanned() + step_tokens(
                old(self).source(),
                old(self).offset(),
            ),
    {
        let ghost source = self.source();
        let ghost start = self.offset();
        let ghost collected = self.scanned();
        proof {
            lemma_scan_one_advances(source, start);
        }
        let character = self.advance();
        if character == '\n' {
            proof {
                lemma_position_bounds(source, start);
            }
            self.current_line_number += 1;
            assert(self.scanned() + Seq::<TokenModel>::empty() =~= self.scanned());
            return None;
        }
        assert(line_at(source, start + 1) == line_at(source, start));
        let mut report: Option<LexReport> = None;
        if character == '(' {
            self.add_token(TokenType::LeftParenthesis);
        } else if character == ')' {
            self.add_token(TokenType::RightParenthesis);
        } else if character == '{' {
            self.add_token(TokenType::LeftBrace);
        } else if character == '}' {
            self.add_token(TokenType::RightBrace);
        } else if character == ',' {
            self.add_token(TokenType::Comma);
        } else if character == '.' {
            self.add_token(TokenType::Dot);
        } else if character == '-' {
            self.add_token(TokenType::Minus);
        } else if character == '+' {
            self.add_token(TokenType::Plus);
        } else if character == ';' {
            self.add_token(TokenType::Semicolon);
        } else if character == '*' {
            self.add_token(TokenType::Star);
        } else if character == '!' {
            if self.match_character('=') {
                self.add_token(TokenType::BangEqual);
            } else {
                self.add_token(TokenType::Bang);
            }
        } else if character == '=' {
            if self.match_character('=') {
                self.add_token(TokenType::EqualEqual);
            } else {
                self.add_token(TokenType::Equal);
            }
        } else if character == '<' {
            if self.match_character('=') {
                self.add_token(TokenType::LessEqual);
            } else {
                self.add_token(TokenType::Less);
            }
        } else if character == '>' {
            if self.match_character('=') {
                self.add_token(TokenType::GreaterEqual);
            } else {
                self.add_token(TokenType::Greater);
            }
        } else if character == '/' {
            if self.match_character('/') {
                self.consume_run(Run::Comment);
                assert(self.scanned() + Seq::<TokenModel>::empty() =~= self.scanned());
            } else {
                self.add_token(TokenType::Slash);
            }
        } else if character == ' ' || character == '\r' || character == '\t' {
            assert(self.scanned() + Seq::<TokenModel>::empty() =~= self.scanned());
        } else if character == '"' {
            proof {
                lemma_run_end(source, start + 1, Run::Text);
            }
            if !self.scan_string_literal() {
                report = Some(LexReport::UnterminatedString { line: self.current_line_number });
            }
        } else if is_digit_character(character) {
            self.scan_number_literal();
        } else if Self::is_alphabetic(character) {
            self.scan_identifier();
        } else {
            assert(self.scanned() + Seq::<TokenModel>::empty() =~= self.scanned());
            report = Some(
                LexReport::UnexpectedCharacter { line: self.current_line_number, character },
            );
        }
        proof {
            let step = scan_one(source, start);
            if let Some(token_type) = step.token_type {
                assert(collected.push(
                    TokenModel {
                        token_type,
                        lexeme: source.subrange(start, step.next),
                        line_number: line_at(source, step.next),
                    },
                ) =~= collected + step_tokens(source, start));
            }
        }
        report
    }

    /// Lexes an identifier or a keyword whose first character has been
    /// consumed.
    fn scan_identifier(&mut self)
        requires
            old(self).well_formed(),
            old(self).current_index == old(self).start_index + 1,
            is_alphabetic(old(self).source()[old(self).start_index as int]),
        ensures
            final(self).well_formed(),
            final(self).source() == old(self).source(),
            final(self).start_index == old(self).start_index,
            final(self).offset() == run_end(
                old(self).source(),
                old(self).start_index as int,
                Run::Word,
            ),
            final(self).scanned() == old(self).scanned().push(
                TokenModel {
                    token_type: word_type(
                        old(self).source().subrange(
                            old(self).start_index as int,
                            final(self).offset(),
                        ),
                    ),
                    lexeme: old(self).source().subrange(
                        old(self).start_index as int,
                        final(self).offset(),
                    ),
                    line_number: line_at(old(self).source(), final(self).offset()),
                },
            ),
    {
        self.consume_run(Run::Word);
        let lexeme = self.lexeme();
        let token_type = if spells(&lexeme, "and") {
            TokenType::And
        } else if spells(&lexeme, "class") {
            TokenType::Class
        } else if spells(&lexeme, "else") {
            TokenType::Else
        } else if spells(&lexeme, "false") {
            TokenType::False
        } else if spells(&lexeme, "for") {
            TokenType::For
        } else if spells(&lexeme, "fun") {
            TokenType::Fun
        } else if spells(&lexeme, "if") {
            TokenType::If
        } else if spells(&lexeme, "nil") {
            TokenType::Nil
        } else if spells(&lexeme, "or") {
            TokenType::Or
        } else if spells(&lexeme, "print") {
            TokenType::Print
        } else if spells(&lexeme, "return") {
            TokenType::Return
        } else if spells(&lexeme, "super") {
            TokenType::Super
        } else if spells(&lexeme, "this") {
            TokenType::This
        } else if spells(&lexeme, "true") {
            TokenType::True
        } else if spells(&lexeme, "var") {
            TokenType::Var
        } else if spells(&lexeme, "while") {
            TokenType::While
        } else {
            TokenType::Identifier
        };
        let ghost collected = self.scanned();
        self.tokens.push(Token::new(token_type, lexeme, self.current_line_number));
        assert(self.scanned() =~= collected.push(self.tokens@.last()@));
    }

    /// Lexes a number whose first digit has been consumed.
    fn scan_number_literal(&mut self)
        requires
            old(self).well_formed(),
            old(self).current_index == old(self).start_index + 1,
            is_digit(old(self).source()[old(self).start_index as int]),
        ensures
            final(self).well_formed(),
            final(self).source() == old(self).source(),
            final(self).start_index == old(self).start_index,
            final(self).offset() == number_end(old(self).source(), old(self).start_index as int),
            final(self).scanned() == old(self).scanned().push(
                TokenModel {
                    token_type: TokenType::Number,
                    lexeme: old(self).source().subrange(
                        old(self).start_index as int,
                        final(self).offset(),
                    ),
                    line_number: line_at(old(self).source(), final(self).offset()),
                },
            ),
    {
        self.consume_run(Run::Digits);
        if self.peek() == '.' && is_digit_character(self.peek_next()) {
            let ghost dot = self.offset();
            self.advance();
            assert(line_at(self.source(), dot + 1) == line_at(self.source(), dot));
            self.consume_run(Run::Digits);
        }
        self.add_token(TokenType::Number);
    }

    /// Lexes a string whose opening quote has been consumed, and says
    /// whether it is closed. A string that is not closed makes no token.
    fn scan_string_literal(&mut self) -> (closed: bool)
        requires
            old(self).well_formed(),
            old(self).current_index == old(self).start_index + 1,
        ensures
            closed == (run_end(old(self).source(), old(self).start_index + 1, Run::Text) < old(
                self,
            ).source().len()),
            final(self).well_formed(),
            final(self).source() == old(self).source(),
            final(self).start_index == old(self).start_index,
            ({
                let close = run_end(old(self).source(), old(self).start_index + 1, Run::Text);
                if close < old(self).source().len() {
                    &&& final(self).offset() == close + 1
                    &&& final(self).scanned() == old(self).scanned().push(
                        TokenModel {
                            token_type: TokenType::String,
                            lexeme: old(self).source().subrange(
                                old(self).start_index as int,
                                close + 1,
                            ),
                            line_number: line_at(old(self).source(), close + 1),
                        },
                    )
                } else {
                    &&& final(self).offset() == close
                    &&& final(self).scanned() == old(self).scanned()
                }
            }),
    {
        proof {
            lemma_run_end(self.source(), self.offset(), Run::Text);
        }
        self.consume_run(Run::Text);
        if self.is_at_end() {
            return false;
        }
        let ghost close = self.offset();
        self.advance();
        assert(line_at(self.source(), close + 1) == line_at(self.source(), close));
        self.add_token(TokenType::String);
        true
    }

    /// Consumes the longest run that starts at the current character, and
    /// counts the lines that it spans.
    fn consume_run(&mut self, run: Run)
        requires
            old(self).well_formed(),
        ensures
            final(self).well_formed(),
            final(self).source() == old(self).source(),
            final(self).start_index == old(self).start_index,
            final(self).scanned() == old(self).scanned(),
            final(self).offset() == run_end(old(self).source(), old(self).offset(), run),
    {
        while !self.is_at_end() && continues(run, self.peek())
            invariant
                self.well_formed(),
                self.source() == old(self).source(),
                self.start_index == old(self).start_index,
                self.scanned() == old(self).scanned(),
                old(self).offset() <= self.offset(),
                run_end(self.source(), self.offset(), run) == run_end(
                    old(self).source(),
                    old(self).offset(),
                    run,
                ),
            decreases self.source().len() - self.offset(),
        {
            proof {
                lemma_position_bounds(self.source(), self.offset());
            }
            if self.peek() == '\n' {
                self.current_line_number += 1;
            }
            self.advance();
        }
    }

    /// The characters of the token under way, as a string.
    fn lexeme(&self) -> (lexeme: String)
        requires
            self.bounded(),
        ensures
            lexeme@ == self.source().subrange(self.start_index as int, self.current_index as int),
    {
        let mut lexeme = String::new();
        let mut index: usize = self.start_index;
        while index < self.current_index
            invariant
                self.bounded(),
                self.start_index <= index <= self.current_index,
                lexeme@ == self.source_characters@.subrange(self.start_index as int, index as int),
            decreases self.current_index - index,
        {
            lexeme.push(self.source_characters[index]);
            index += 1;
            assert(self.source_characters@.subrange(self.start_index as int, index as int)
                == self.source_characters@.subrange(self.start_index as int, index as int - 1).push(
                self.source_characters@[index as int - 1],
            ));
        }
        lexeme
    }

    /// Adds the token of the given kind that the characters consumed since
    /// the start of the step make up.
    fn add_token(&mut self, token_type: TokenType)
        requires
            old(self).bounded(),
        ensures
            final(self).source() == old(self).source(),
            final(self).start_index == old(self).start_index,
            final(self).current_index == old(self).current_index,
            final(self).current_line_number == old(self).current_line_number,
            final(self).scanned() == old(self).scanned().push(
                TokenModel {
                    token_type,
                    lexeme: old(self).source().subrange(
                        old(self).start_index as int,
                        old(self).current_index as int,
                    ),
                    line_number: old(self).current_line_number as nat,
                },
            ),
    {
        let lexeme = self.lexeme();
        let ghost collected = self.scanned();
        self.tokens.push(Token::new(token_type, lexeme, self.current_line_number));
        assert(self.scanned() =~= collected.push(self.tokens@.last()@));
    }

    /// Consumes the current character and gives it. The line number is
    /// left as it is.
    fn advance(&mut self) -> (character: char)
        requires
            old(self).bounded(),
            old(self).offset() < old(self).source().len(),
        ensures
            final(self).bounded(),
            final(self).source() == old(self).source(),
            final(self).start_index == old(self).start_index,
            final(self).current_line_number == old(self).current_line_number,
            final(self).scanned() == old(self).scanned(),
            final(self).offset() == old(self).offset() + 1,
            character == old(self).source()[old(self).offset()],
    {
        let character = self.source_characters[self.current_index];
        self.current_index += 1;
        character
    }

    /// Consumes the current character if it is the expected one, and says
    /// whether it was.
    fn match_character(&mut self, expected: char) -> (matched: bool)
        requires
            old(self).bounded(),
            old(self).offset() >= 1,
        ensures
            final(self).bounded(),
            final(self).source() == old(self).source(),
            final(self).start_index == old(self).start_index,
            final(self).current_line_number == old(self).current_line_number,
            final(self).scanned() == old(self).scanned(),
            matched == followed_by(old(self).source(), old(self).offset() - 1, expected),
            final(self).offset() == if matched {
                old(self).offset() + 1
            } else {
                old(self).offset()
            },
    {
        if self.is_at_end() {
            return false;
        }
        if self.source_characters[self.current_index] != expected {
            return false;
        }
        self.current_index += 1;
        true
    }

    /// The current character, or the null character at the end of the
    /// source.
    fn peek(&self) -> (character: char)
        requires
            self.bounded(),
        ensures
            character == if self.offset() < self.source().len() {
                self.source()[self.offset()]
            } else {
                '\0'
            },
    {
        if self.is_at_end() {
            '\0'
        } else {
            self.source_characters[self.current_index]
        }
    }

    /// The character behind the current one, or the null character where
    /// the source ends before it.
    fn peek_next(&self) -> (character: char)
        requires
            self.bounded(),
        ensures
            character == if self.offset() + 1 < self.source().len() {
                self.source()[self.offset() + 1]
            } else {
                '\0'
            },
    {
        if self.current_index + 1 >= self.source_characters.len() {
            '\0'
        } else {
            self.source_characters[self.current_index + 1]
        }
    }

    /// Whether the whole source has been consumed.
    fn is_at_end(&self) -> (yes: bool)
        ensures
            yes == (self.offset() >= self.source().len()),
    {
        self.current_index >= self.source_characters.len()
    }

    /// Whether `character` is an ASCII letter or an underscore.
    fn is_alphabetic(character: char) -> (yes: bool)
        ensures
            yes == is_alphabetic(character),
    {
        ('a' <= character && character <= 'z') || ('A' <= character && character <= 'Z')
            || character == '_'
    }

    /// Whether `character` is an ASCII letter, a digit or an underscore.
    fn is_alphanumeric(character: char) -> (yes: bool)
        ensures
            yes == is_alphanumeric(character),
    {
        Self::is_alphabetic(character) || is_digit_character(character)
    }
}

/// Lexes a whole source: its tokens, the end-of-file token last, and the
/// reports on what was passed over.
pub fn scan(source: &str) -> (scan: Scan)
    ensures
        token_models(scan.tokens@) == scan_source(source@),
        scan.reports@ == reports_from(source@, 0),
{
    let lexer = Lexer::new(source);
    assert(lexer.scanned() + scan_from(source@, 0) =~= scan_from(source@, 0));
    lexer.scan_with_reports()
}

/// Whether `character` is an ASCII digit.
fn is_digit_character(character: char) -> (yes: bool)
    ensures
        yes == is_digit(character),
{
    '0' <= character && character <= '9'
}

/// Whether `character` goes on `run`.
fn continues(run: Run, character: char) -> (yes: bool)
    ensures
        yes == in_run(run, character),
{
    match run {
        Run::Digits => is_digit_character(character),
        Run::Word => Lexer::is_alphanumeric(character),
        Run::Comment => character != '\n',
        Run::Text => character != '"',
    }
}

/// Whether `text` spells `literal`.
fn spells(text: &String, literal: &str) -> (yes: bool)
    ensures
        yes == (text@ == literal@),
{
    *text == String::from_str(literal)
}

} // verus!
