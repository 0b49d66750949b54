//! The tokenizer: a finite-state scanner that turns a source text into
//! tokens, one at a time, on demand.

use vstd::prelude::*;
use crate::scan::decimal_value;
use crate::scan::digit_value;
use crate::scan::is_digit;
use crate::scan::is_letter;
use crate::scan::lemma_run_end_bounds;
use crate::scan::lemma_scan_advances;
use crate::scan::lex_from;
use crate::scan::number_lexeme;
use crate::scan::plain;
use crate::scan::punctuation;
use crate::scan::run_end;
use crate::scan::scan;
use crate::scan::stream_end;
use crate::scan::string_token;
use crate::scan::word_token;
use crate::scan::LexError;
use crate::scan::Lexeme;
use crate::scan::Run;
use crate::scan::Scan;
use crate::text::chars_of;
use crate::text::is_text;
use crate::text::text_of;
use crate::token::Token;
use crate::token::TokenKind;
use crate::token::TokenView;

verus! {

/// The lexeme that the outcome of a scanning step stands for.
pub open spec fn lexeme_of(outcome: Result<Token, LexError>) -> Lexeme {
    match outcome {
        Ok(token) => Ok(token@),
        Err(error) => Err(error),
    }
}

fn letter(c: char) -> (yes: bool)
    ensures
        yes == is_letter(c),
{
    (c >= 'a' && c <= 'z') || (c >= 'A' && c <= 'Z')
}

fn digit(c: char) -> (yes: bool)
    ensures
        yes == is_digit(c),
{
    c >= '0' && c <= '9'
}

/// The token that `c` forms by itself, if it forms one.
fn punctuation_token(c: char) -> (token: Option<Token>)
    ensures
        token is Some <==> punctuation(c) is Some,
        token matches Some(t) ==> t@ == plain(punctuation(c)->0),
{
    match c {
        '(' => Some(Token::PARENS_L),
        ')' => Some(Token::PARENS_R),
        '[' => Some(Token::BRACKET_L),
        ']' => Some(Token::BRACKET_R),
        '{' => Some(Token::BRACE_L),
        '}' => Some(Token::BRACE_R),
        '.' => Some(Token::POINT),
        ',' => Some(Token::COMMA),
        ':' => Some(Token::COLON),
        ';' => Some(Token::SEMICOLON),
        '>' => Some(Token::GT),
        '<' => Some(Token::LT),
        '+' => Some(Token::ADD),
        '*' => Some(Token::MUL),
        '/' => Some(Token::DIV),
        '=' => Some(Token::ASSIGN),
        _ => None,
    }
}

/// The keyword or type name that `word` spells, or an identifier of that name.
fn word_of(word: &Vec<char>) -> (token: Token)
    ensures
        token@ == word_token(word@),
{
    if is_text(word, "func") {
        Token::FUNC
    } else if is_text(word, "let") {
        Token::LET
    } else if is_text(word, "if") {
        Token::IF
    } else if is_text(word, "then") {
        Token::THEN
    } else if is_text(word, "else") {
        Token::ELSE
    } else if is_text(word, "while") {
        Token::WHILE
    } else if is_text(word, "print") {
        Token::PRINT
    } else if is_text(word, "return") {
        Token::RETURN
    } else if is_text(word, "int32") {
        Token::TYPE_INT32
    } else if is_text(word, "flt32") {
        Token::TYPE_FLT32
    } else if is_text(word, "char") {
        Token::TYPE_CHAR
    } else {
        Token::ID(text_of(word))
    }
}

/// The value of digits is never negative.
proof fn lemma_decimal_value_nonnegative(digits: Seq<char>)
    requires
        forall|i: int| 0 <= i < digits.len() ==> is_digit(#[trigger] digits[i]),
    ensures
        0 <= decimal_value(digits),
    decreases digits.len(),
{
    if digits.len() > 0 {
        lemma_decimal_value_nonnegative(digits.drop_last());
    }
}

/// Reading more digits never gives a smaller value.
proof fn lemma_decimal_value_grows(digits: Seq<char>, n: int)
    requires
        forall|i: int| 0 <= i < digits.len() ==> is_digit(#[trigger] digits[i]),
        0 <= n <= digits.len(),
    ensures
        decimal_value(digits.take(n)) <= decimal_value(digits),
    decreases digits.len(),
{
    if n == digits.len() {
        assert(digits.take(n) =~= digits);
    } else {
        let shorter = digits.drop_last();
        lemma_decimal_value_grows(shorter, n);
        lemma_decimal_value_nonnegative(shorter);
        assert(shorter.take(n) =~= digits.take(n));
    }
}

/// The integer literal that a run of digits denotes, or the overflow error.
fn number_of(digits: &Vec<char>) -> (outcome: Result<Token, LexError>)
    requires
        forall|i: int| 0 <= i < digits@.len() ==> is_digit(#[trigger] digits@[i]),
    ensures
        lexeme_of(outcome) == number_lexeme(digits@),
{
    let mut value: i32 = 0;
    let mut i: usize = 0;
    while i < digits.len()
        invariant
            i <= digits.len(),
            forall|k: int| 0 <= k < digits@.len() ==> is_digit(#[trigger] digits@[k]),
            value == decimal_value(digits@.take(i as int)),
            0 <= value,
        decreases digits.len() - i,
    {
        let d: i32 = (digits[i] as u32 - '0' as u32) as i32;
        proof {
            assert(is_digit(digits@[i as int]));
            assert(d == digit_value(digits@[i as int]));
            assert(digits@.take(i + 1).drop_last() =~= digits@.take(i as int));
            assert(digits@.take(i + 1).last() == digits@[i as int]);
            assert(decimal_value(digits@.take(i + 1)) == 10 * value + d);
        }
        if value > (i32::MAX - d) / 10 {
            proof {
                lemma_decimal_value_grows(digits@, i + 1);
            }
            return Err(LexError::IntegerOverflow);
        }
        value = value * 10 + d;
        i = i + 1;
    }
    assert(digits@.take(i as int) =~= digits@);
    Ok(Token::LIT_INT32(value))
}

/// The states of the scanner.
#[derive(Clone, Copy, Debug, PartialEq, Eq, Structural)]
enum LexerState {
    /// Between tokens.
    Start,
    /// Inside a word: an identifier, a keyword or a type name.
    InIdentifier,
    /// Inside a run of digits.
    InNumber,
    /// Inside a string literal, after its opening quote.
    InStringLiteral,
    /// Just after a `-`, which may begin an arrow.
    ArrowR,
    /// End-of-input has been produced.
    End,
}

/// The scanner's configuration: the cursor into the source text, the state,
/// and the characters gathered so far for the token being built.
struct Scanner {
    pos: usize,
    state: LexerState,
    buffer: Vec<char>,
}

impl Scanner {
    /// Between tokens the buffer is empty.
    spec fn settled(&self) -> bool {
        (self.state is Start || self.state is End) && self.buffer@.len() == 0
    }

    /// The cursor is inside the text or at its end, the buffer is empty
    /// unless a multi-character token is being built, and a number under
    /// construction holds digits only.
    spec fn sound(&self, src: Seq<char>) -> bool {
        &&& self.pos <= src.len()
        &&& (self.state is Start || self.state is End) ==> self.buffer@.len() == 0
        &&& self.state is InNumber ==> forall|i: int|
            0 <= i < self.buffer@.len() ==> is_digit(#[trigger] self.buffer@[i])
    }

    /// The lexeme that this configuration will produce, and the cursor after it.
    spec fn outlook(&self, src: Seq<char>) -> Scan {
        let pos = self.pos as int;
        match self.state {
            LexerState::Start | LexerState::End => scan(src, pos),
            LexerState::InIdentifier => {
                let end = run_end(src, pos, Run::Word);
                Scan { lexeme: Ok(word_token(self.buffer@ + src.subrange(pos, end))), next: end }
            },
            LexerState::InNumber => {
                let end = run_end(src, pos, Run::Digits);
                Scan { lexeme: number_lexeme(self.buffer@ + src.subrange(pos, end)), next: end }
            },
            LexerState::InStringLiteral => {
                let close = run_end(src, pos, Run::Quoted);
                if close < src.len() {
                    Scan {
                        lexeme: Ok(string_token(self.buffer@ + src.subrange(pos, close))),
                        next: close + 1,
                    }
                } else {
                    Scan { lexeme: Err(LexError::UnterminatedString), next: close }
                }
            },
            LexerState::ArrowR => {
                if pos < src.len() && src[pos] == '>' {
                    Scan { lexeme: Ok(plain(TokenKind::ARROW_R)), next: pos + 1 }
                } else {
                    Scan { lexeme: Ok(plain(TokenKind::SUB)), next: pos }
                }
            },
        }
    }

    /// A scanner between tokens, at the given position.
    fn at(pos: usize) -> (scanner: Scanner)
        ensures
            scanner.pos == pos,
            scanner.state is Start,
            scanner.buffer@.len() == 0,
    {
        Scanner { pos, state: LexerState::Start, buffer: Vec::new() }
    }

    /// Moves the character under the cursor into the buffer.
    fn take(&mut self, c: char)
        requires
            old(self).pos < usize::MAX,
        ensures
            final(self).pos == old(self).pos + 1,
            final(self).state == old(self).state,
            final(self).buffer@ == old(self).buffer@.push(c),
    {
        self.buffer.push(c);
        self.pos = self.pos + 1;
    }

    /// Finalizes a token: clears the buffer and returns to the start state.
    fn settle(&mut self)
        ensures
            final(self).pos == old(self).pos,
            final(self).state is Start,
            final(self).buffer@.len() == 0,
    {
        self.buffer.clear();
        self.state = LexerState::Start;
    }

    /// One transition on the character under the cursor: either a token is
    /// finalized, or the character is consumed and scanning goes on.
    fn step(&mut self, input: &Vec<char>) -> (outcome: Option<Result<Token, LexError>>)
        requires
            old(self).sound(input@),
            old(self).pos < input.len(),
        ensures
            final(self).sound(input@),
            match outcome {
                Some(result) => {
                    &&& lexeme_of(result) == old(self).outlook(input@).lexeme
                    &&& final(self).pos == old(self).outlook(input@).next
                    &&& final(self).settled()
                },
                None => {
                    &&& final(self).outlook(input@) == old(self).outlook(input@)
                    &&& final(self).pos == old(self).pos + 1
                },
            },
    {
        let c = input[self.pos];
        let ghost src = input@;
        let ghost pos = self.pos as int;
        let ghost before = self.buffer@;
        match self.state {
            LexerState::Start | LexerState::End => {
                let single = punctuation_token(c);
                if single.is_some() {
                    self.state = LexerState::Start;
                    self.pos = self.pos + 1;
                    Some(Ok(single.unwrap()))
                } else if c == '-' {
                    self.state = LexerState::ArrowR;
                    self.take(c);
                    None
                } else if c == '"' {
                    self.state = LexerState::InStringLiteral;
                    self.pos = self.pos + 1;
                    proof {
                        let close = run_end(src, pos + 1, Run::Quoted);
                        assert(self.buffer@ + src.subrange(pos + 1, close) =~= src.subrange(
                            pos + 1,
                            close,
                        ));
                    }
                    None
                } else if letter(c) {
                    self.state = LexerState::InIdentifier;
                    self.take(c);
                    proof {
                        lemma_run_end_bounds(src, pos + 1, Run::Word);
                        let end = run_end(src, pos + 1, Run::Word);
                        assert(self.buffer@ + src.subrange(pos + 1, end) =~= src.subrange(pos, end));
                    }
                    None
                } else if digit(c) {
                    self.state = LexerState::InNumber;
                    self.take(c);
                    proof {
                        lemma_run_end_bounds(src, pos + 1, Run::Digits);
                        let end = run_end(src, pos + 1, Run::Digits);
                        assert(self.buffer@ + src.subrange(pos + 1, end) =~= src.subrange(pos, end));
                    }
                    None
                } else {
                    self.state = LexerState::Start;
                    self.pos = self.pos + 1;
                    None
                }
            },
            LexerState::InIdentifier => {
                if letter(c) || digit(c) {
                    self.take(c);
                    proof {
                        lemma_run_end_bounds(src, pos + 1, Run::Word);
                        let end = run_end(src, pos + 1, Run::Word);
                        assert(self.buffer@ + src.subrange(pos + 1, end) =~= before + src.subrange(
                            pos,
                            end,
                        ));
                    }
                    None
                } else {
                    let token = word_of(&self.buffer);
                    proof {
                        assert(before + src.subrange(pos, pos) =~= before);
                    }
                    self.settle();
                    Some(Ok(token))
                }
            },
            LexerState::InNumber => {
                if digit(c) {
                    self.take(c);
                    proof {
                        lemma_run_end_bounds(src, pos + 1, Run::Digits);
                        let end = run_end(src, pos + 1, Run::Digits);
                        assert(self.buffer@ + src.subrange(pos + 1, end) =~= before + src.subrange(
                            pos,
                            end,
                        ));
                    }
                    None
                } else {
                    let number = number_of(&self.buffer);
                    proof {
                        assert(before + src.subrange(pos, pos) =~= before);
                    }
                    self.settle();
                    Some(number)
                }
            },
            LexerState::InStringLiteral => {
                if c == '"' {
                    let token = Token::LIT_STRING(text_of(&self.buffer));
                    proof {
                        assert(before + src.subrange(pos, pos) =~= before);
                    }
                    self.settle();
                    self.pos = self.pos + 1;
                    Some(Ok(token))
                } else {
                    self.take(c);
                    proof {
                        lemma_run_end_bounds(src, pos + 1, Run::Quoted);
                        let close = run_end(src, pos + 1, Run::Quoted);
                        assert(self.buffer@ + src.subrange(pos + 1, close) =~= before
                            + src.subrange(pos, close));
                    }
                    None
                }
            },
            LexerState::ArrowR => {
                if c == '>' {
                    self.settle();
                    self.pos = self.pos + 1;
                    Some(Ok(Token::ARROW_R))
                } else {
                    self.settle();
                    Some(Ok(Token::SUB))
                }
            },
        }
    }

    /// What the scanner produces where the input ends: a word or a number
    /// under construction is finalized, a lone `-` is a subtraction, an
    /// open string literal is an error, and otherwise the end is reported.
    fn finish(&mut self, input: &Vec<char>) -> (outcome: Result<Token, LexError>)
        requires
            old(self).sound(input@),
            old(self).pos >= input.len(),
        ensures
            final(self).sound(input@),
            lexeme_of(outcome) == old(self).outlook(input@).lexeme,
            final(self).pos == old(self).outlook(input@).next,
            final(self).settled(),
    {
        let ghost src = input@;
        let ghost pos = self.pos as int;
        let ghost before = self.buffer@;
        proof {
            assert(before + src.subrange(pos, pos) =~= before);
        }
        match self.state {
            LexerState::Start | LexerState::End => {
                self.state = LexerState::End;
                Ok(Token::EOI)
            },
            LexerState::InIdentifier => {
                let token = word_of(&self.buffer);
                self.settle();
                Ok(token)
            },
            LexerState::InNumber => {
                let number = number_of(&self.buffer);
                self.settle();
                number
            },
            LexerState::InStringLiteral => {
                self.settle();
                Err(LexError::UnterminatedString)
            },
            LexerState::ArrowR => {
                self.settle();
                Ok(Token::SUB)
            },
        }
    }

    /// Runs the state machine until it finalizes a token.
    fn run(&mut self, input: &Vec<char>) -> (outcome: Result<Token, LexError>)
        requires
            old(self).sound(input@),
        ensures
            final(self).sound(input@),
            lexeme_of(outcome) == old(self).outlook(input@).lexeme,
            final(self).pos == old(self).outlook(input@).next,
            final(self).settled(),
    {
        let ghost goal = self.outlook(input@);
        loop
            invariant
                self.sound(input@),
                self.outlook(input@) == goal,
                goal == old(self).outlook(input@),
            decreases input.len() - self.pos,
        {
            if self.pos >= input.len() {
                return self.finish(input);
            }
            match self.step(input) {
                Some(result) => {
                    return result;
                },
                None => {},
            }
        }
    }
}

/// The mathematical state of a lexer.
pub struct LexerView {
    /// The source text.
    pub source: Seq<char>,
    /// How many characters of the source have been consumed.
    pub cursor: int,
    /// The token that was produced last; end-of-input before the first one.
    pub current: TokenView,
}

/// The lexemes that a sequence of tokens stands for.
pub open spec fn lexemes_of(tokens: Seq<Token>) -> Seq<Lexeme> {
    Seq::new(tokens.len(), |i: int| Ok(tokens[i]@))
}

/// A tokenizer over a source text that is held in memory as a whole.
pub struct Lexer {
    input: Vec<char>,
    pos: usize,
    current_token: Token,
}

impl View for Lexer {
    type V = LexerView;

    closed spec fn view(&self) -> LexerView {
        LexerView { source: self.input@, cursor: self.pos as int, current: self.current_token@ }
    }
}

impl Lexer {
    #[verifier::type_invariant]
    spec fn cursor_inside(self) -> bool {
        self.pos <= self.input.len()
    }

    /// A lexer at the start of `input`.
    pub fn new(input: String) -> (lexer: Lexer)
        ensures
            lexer@ == (LexerView { source: input@, cursor: 0, current: plain(TokenKind::EOI) }),
    {
        Lexer { input: chars_of(input.as_str()), pos: 0, current_token: Token::EOI }
    }

    /// Replaces the source text and starts over at its beginning.
    pub fn set_input(&mut self, input: String)
        ensures
            final(self)@ == (LexerView {
                source: input@,
                cursor: 0,
                current: plain(TokenKind::EOI),
            }),
    {
        self.pos = 0;
        self.input = chars_of(input.as_str());
        self.current_token = Token::EOI;
    }

    /// Consumes and returns the next token, or end-of-input once the text is
    /// exhausted, from then on at every call and without moving the cursor.
    /// A literal that is no token is an error; the cursor then stands
    /// behind it and the current token stays what it was.
    pub fn advance(&mut self) -> (outcome: Result<Token, LexError>)
        ensures
            lexeme_of(outcome) == scan(old(self)@.source, old(self)@.cursor).lexeme,
            final(self)@.source == old(self)@.source,
            final(self)@.cursor == scan(old(self)@.source, old(self)@.cursor).next,
            final(self)@.current == match outcome {
                Ok(token) => token@,
                Err(_) => old(self)@.current,
            },
            0 <= old(self)@.cursor <= final(self)@.cursor <= final(self)@.source.len(),
            old(self)@.cursor >= old(self)@.source.len() && old(self)@.current == plain(
                TokenKind::EOI,
            ) ==> final(self)@ == old(self)@,
    {
        proof {
            use_type_invariant(&*self);
            lemma_scan_advances(self.input@, self.pos as int);
        }
        let mut scanner = Scanner::at(self.pos);
        let outcome = scanner.run(&self.input);
        self.pos = scanner.pos;
        match &outcome {
            Ok(token) => {
                self.current_token = token.clone();
            },
            Err(_) => {},
        }
        outcome
    }

    /// The token that was produced last, or end-of-input where the cursor
    /// has reached the end of the text. Consumes nothing.
    pub fn curr(&self) -> (token: Token)
        ensures
            token@ == if self@.cursor >= self@.source.len() {
                plain(TokenKind::EOI)
            } else {
                self@.current
            },
    {
        if self.pos >= self.input.len() {
            return Token::EOI;
        }
        self.current_token.clone()
    }

    /// The lexeme that the next `advance` will produce. Consumes nothing.
    pub fn peek_next(&self) -> (outcome: Result<Token, LexError>)
        ensures
            lexeme_of(outcome) == scan(self@.source, self@.cursor).lexeme,
    {
        proof {
            use_type_invariant(self);
        }
        let mut scanner = Scanner::at(self.pos);
        scanner.run(&self.input)
    }

    /// Consumes the rest of the text and returns its tokens, end-of-input
    /// included as the last one; or the error that ends the stream.
    pub fn collect_tokens(&mut self) -> (outcome: Result<Vec<Token>, LexError>)
        ensures
            final(self)@.source == old(self)@.source,
            final(self)@.cursor == stream_end(old(self)@.source, old(self)@.cursor),
            match outcome {
                Ok(tokens) => lexemes_of(tokens@) == lex_from(old(self)@.source, old(self)@.cursor),
                Err(error) => lex_from(old(self)@.source, old(self)@.cursor).last() == Err::<
                    TokenView,
                    LexError,
                >(error),
            },
    {
        let ghost src = self@.source;
        let ghost start = self@.cursor;
        let mut tokens: Vec<Token> = Vec::new();
        loop
            invariant
                self@.source == src,
                src == old(self)@.source,
                start == old(self)@.cursor,
                0 <= start <= self@.cursor,
                lex_from(src, start) == lexemes_of(tokens@) + lex_from(src, self@.cursor),
                stream_end(src, start) == stream_end(src, self@.cursor),
            decreases src.len() - self@.cursor, 
        {
            let ghost here = self@.cursor;
            let ghost before = tokens@;
            proof {
                lemma_scan_advances(src, here);
            }
            match self.advance() {
                Ok(token) => {
                    let done = token.kind() == TokenKind::EOI;
                    tokens.push(token);
                    proof {
                        assert(lexemes_of(tokens@) =~= lexemes_of(before) + seq![
                            scan(src, here).lexeme,
                        ]);
                        if done {
                            assert(lex_from(src, start) =~= lexemes_of(tokens@));
                        } else {
                            assert(lex_from(src, start) =~= lexemes_of(tokens@) + lex_from(
                                src,
                                self@.cursor,
                            ));
                        }
                    }
                    if done {
                        return Ok(tokens);
                    }
                },
                Err(error) => {
                    return Err(error);
                },
            }
        }
    }
}

} // verus!
