//! The lexical grammar: which lexeme starts at a position of a source text,
//! and where the next one begins.

use vstd::prelude::*;
use crate::token::Payload;
use crate::token::TokenKind;
use crate::token::TokenView;

verus! {

/// Why a piece of source text is not a token.
#[derive(Clone, Copy, Debug, PartialEq, Eq, Structural)]
pub enum LexError {
    /// A run of digits whose value does not fit a signed 32-bit integer.
    IntegerOverflow,
    /// A string literal that is still open where the input ends.
    UnterminatedString,
}

/// One element of the lexeme stream: a token, or the reason there is none.
pub type Lexeme = Result<TokenView, LexError>;

/// The lexeme found by scanning from some position, and the position after it.
pub struct Scan {
    pub lexeme: Lexeme,
    pub next: int,
}

/// The three kinds of run that make up a multi-character token.
pub enum Run {
    /// Letters and digits: identifiers and keywords.
    Word,
    /// Decimal digits: integer literals.
    Digits,
    /// Anything but a double quote: the inside of a string literal.
    Quoted,
}

/// The letters `a` to `z` and `A` to `Z`.
pub open spec fn is_letter(c: char) -> bool {
    ('a' <= c && c <= 'z') || ('A' <= c && c <= 'Z')
}

/// The digits `0` to `9`.
pub open spec fn is_digit(c: char) -> bool {
    '0' <= c && c <= '9'
}

/// What a word is made of: letters and digits.
pub open spec fn is_word_char(c: char) -> bool {
    is_letter(c) || is_digit(c)
}

/// Whether `c` continues a run of the given kind.
pub open spec fn continues(run: Run, c: char) -> bool {
    match run {
        Run::Word => is_word_char(c),
        Run::Digits => is_digit(c),
        Run::Quoted => c != '"',
    }
}

/// The first position at or after `pos` whose character does not continue the
/// run, or the length of `src` if every character up to the end does.
pub open spec fn run_end(src: Seq<char>, pos: int, run: Run) -> int
    decreases src.len() - pos,
{
    if 0 <= pos < src.len() && continues(run, src[pos]) {
        run_end(src, pos + 1, run)
    } else {
        pos
    }
}

/// A token without payload.
pub open spec fn plain(kind: TokenKind) -> TokenView {
    TokenView { kind, payload: Payload::Nothing }
}

/// The tokens that a single character forms by itself.
pub open spec fn punctuation(c: char) -> Option<TokenKind> {
    if c == '(' {
        Some(TokenKind::PARENS_L)
    } else if c == ')' {
        Some(TokenKind::PARENS_R)
    } else if c == '[' {
        Some(TokenKind::BRACKET_L)
    } else if c == ']' {
        Some(TokenKind::BRACKET_R)
    } else if c == '{' {
        Some(TokenKind::BRACE_L)
    } else if c == '}' {
        Some(TokenKind::BRACE_R)
    } else if c == '.' {
        Some(TokenKind::POINT)
    } else if c == ',' {
        Some(TokenKind::COMMA)
    } else if c == ':' {
        Some(TokenKind::COLON)
    } else if c == ';' {
        Some(TokenKind::SEMICOLON)
    } else if c == '>' {
        Some(TokenKind::GT)
    } else if c == '<' {
        Some(TokenKind::LT)
    } else if c == '+' {
        Some(TokenKind::ADD)
    } else if c == '*' {
        Some(TokenKind::MUL)
    } else if c == '/' {
        Some(TokenKind::DIV)
    } else if c == '=' {
        Some(TokenKind::ASSIGN)
    } else {
        None
    }
}

/// The keyword table: eight keywords and three type names. Matching is
/// case-sensitive, and every other word is an identifier.
pub open spec fn keyword(word: Seq<char>) -> Option<TokenKind> {
    if word == "func"@ {
        Some(TokenKind::FUNC)
    } else if word == "let"@ {
        Some(TokenKind::LET)
    } else if word == "if"@ {
        Some(TokenKind::IF)
    } else if word == "then"@ {
        Some(TokenKind::THEN)
    } else if word == "else"@ {
        Some(TokenKind::ELSE)
    } else if word == "while"@ {
        Some(TokenKind::WHILE)
    } else if word == "print"@ {
        Some(TokenKind::PRINT)
    } else if word == "return"@ {
        Some(TokenKind::RETURN)
    } else if word == "int32"@ {
        Some(TokenKind::TYPE_INT32)
    } else if word == "flt32"@ {
        Some(TokenKind::TYPE_FLT32)
    } else if word == "char"@ {
        Some(TokenKind::TYPE_CHAR)
    } else {
        None
    }
}

/// The token that a word stands for: its keyword, or an identifier of that name.
pub open spec fn word_token(word: Seq<char>) -> TokenView {
    match keyword(word) {
        Some(kind) => plain(kind),
        None => TokenView { kind: TokenKind::ID, payload: Payload::Text(word) },
    }
}

/// The value of a digit character; meaningful for `'0'` to `'9'`.
pub open spec fn digit_value(c: char) -> int {
    c as int - '0' as int
}

/// The number that a sequence of decimal digits denotes.
pub open spec fn decimal_value(digits: Seq<char>) -> int
    decreases digits.len(),
{
    if digits.len() == 0 {
        0
    } else {
        10 * decimal_value(digits.drop_last()) + digit_value(digits.last())
    }
}

/// The lexeme that a run of digits forms: an integer literal if its value
/// fits a signed 32-bit integer, an error otherwise.
pub open spec fn number_lexeme(digits: Seq<char>) -> Lexeme {
    if decimal_value(digits) <= i32::MAX {
        Ok(TokenView { kind: TokenKind::LIT_INT32, payload: Payload::Int(decimal_value(digits) as i32) })
    } else {
        Err(LexError::IntegerOverflow)
    }
}

/// A string literal token with the given text.
pub open spec fn string_token(text: Seq<char>) -> TokenView {
    TokenView { kind: TokenKind::LIT_STRING, payload: Payload::Text(text) }
}

/// The lexeme that starts at or after `pos`, and the position just after it.
///
/// Characters that start no token, white space among them, are passed over.
/// At the end of the text the lexeme is end-of-input and the position stays.
/// A word or a number extends as far as its run goes; a string literal runs
/// to the next double quote, which is consumed but is no part of its text.
pub open spec fn scan(src: Seq<char>, pos: int) -> Scan
    decreases src.len() - pos,
{
    if pos < 0 || pos >= src.len() {
        Scan { lexeme: Ok(plain(TokenKind::EOI)), next: pos }
    } else {
        let c = src[pos];
        if punctuation(c) is Some {
            Scan { lexeme: Ok(plain(punctuation(c)->0)), next: pos + 1 }
        } else if c == '-' {
            if pos + 1 < src.len() && src[pos + 1] == '>' {
                Scan { lexeme: Ok(plain(TokenKind::ARROW_R)), next: pos + 2 }
            } else {
                Scan { lexeme: Ok(plain(TokenKind::SUB)), next: pos + 1 }
            }
        } else if c == '"' {
            let close = run_end(src, pos + 1, Run::Quoted);
            if close < src.len() {
                Scan { lexeme: Ok(string_token(src.subrange(pos + 1, close))), next: close + 1 }
            } else {
                Scan { lexeme: Err(LexError::UnterminatedString), next: close }
            }
        } else if is_letter(c) {
            let end = run_end(src, pos, Run::Word);
            Scan { lexeme: Ok(word_token(src.subrange(pos, end))), next: end }
        } else if is_digit(c) {
            let end = run_end(src, pos, Run::Digits);
            Scan { lexeme: number_lexeme(src.subrange(pos, end)), next: end }
        } else {
            scan(src, pos + 1)
        }
    }
}

/// Whether a lexeme ends the stream: end-of-input, or an error.
pub open spec fn is_final(lexeme: Lexeme) -> bool {
    match lexeme {
        Ok(token) => token.kind == TokenKind::EOI,
        Err(_) => true,
    }
}

/// A run ends between where it starts and the end of the text.
pub proof fn lemma_run_end_bounds(src: Seq<char>, pos: int, run: Run)
    requires
        0 <= pos <= src.len(),
    ensures
        pos <= run_end(src, pos, run) <= src.len(),
    decreases src.len() - pos,
{
    if pos < src.len() && continues(run, src[pos]) {
        lemma_run_end_bounds(src, pos + 1, run);
    }
}

/// A run that starts at `pos` ends at `end` when every character between
/// the two continues it and the one at `end`, if there is one, does not.
pub proof fn lemma_run_end_is(src: Seq<char>, pos: int, end: int, run: Run)
    requires
        0 <= pos <= end <= src.len(),
        forall|i: int| pos <= i < end ==> continues(run, #[trigger] src[i]),
        end < src.len() ==> !continues(run, src[end]),
    ensures
        run_end(src, pos, run) == end,
    decreases end - pos,
{
    if pos < end {
        lemma_run_end_is(src, pos + 1, end, run);
    }
}

/// Scanning never moves backwards, and a lexeme that does not end the stream
/// takes at least one character and ends inside the text.
pub proof fn lemma_scan_advances(src: Seq<char>, pos: int)
    ensures
        pos <= scan(src, pos).next,
        0 <= pos <= src.len() ==> scan(src, pos).next <= src.len(),
        !is_final(scan(src, pos).lexeme) ==> pos < scan(src, pos).next <= src.len(),
    decreases src.len() - pos,
{
    if 0 <= pos < src.len() {
        let c = src[pos];
        if punctuation(c) is Some {
        } else if c == '-' {
        } else if c == '"' {
            lemma_run_end_bounds(src, pos + 1, Run::Quoted);
        } else if is_letter(c) {
            lemma_run_end_bounds(src, pos + 1, Run::Word);
        } else if is_digit(c) {
            lemma_run_end_bounds(src, pos + 1, Run::Digits);
        } else {
            lemma_scan_advances(src, pos + 1);
        }
    }
}

/// The stream of lexemes from `pos` on: every token up to and including
/// end-of-input, or up to and including the first error.
pub open spec fn lex_from(src: Seq<char>, pos: int) -> Seq<Lexeme>
    decreases src.len() - pos,
{
    let here = scan(src, pos);
    if is_final(here.lexeme) {
        seq![here.lexeme]
    } else {
        proof {
            lemma_scan_advances(src, pos);
        }
        seq![here.lexeme] + lex_from(src, here.next)
    }
}

/// The position after the last lexeme of the stream from `pos` on.
pub open spec fn stream_end(src: Seq<char>, pos: int) -> int
    decreases src.len() - pos,
{
    let here = scan(src, pos);
    if is_final(here.lexeme) {
        here.next
    } else {
        proof {
            lemma_scan_advances(src, pos);
        }
        stream_end(src, here.next)
    }
}

/// A stream is never empty, only its last lexeme is final, and no error
/// stands before the last place.
pub proof fn lemma_stream_shape(src: Seq<char>, pos: int)
    ensures
        lex_from(src, pos).len() >= 1,
        is_final(lex_from(src, pos).last()),
        forall|i: int| 0 <= i < lex_from(src, pos).len() - 1 ==> !is_final(#[trigger] lex_from(src, pos)[i]),
    decreases src.len() - pos,
{
    let here = scan(src, pos);
    if !is_final(here.lexeme) {
        lemma_scan_advances(src, pos);
        lemma_stream_shape(src, here.next);
    }
}

/// A character of punctuation is one token of the matching kind, and the
/// next lexeme starts exactly one character later.
pub proof fn lemma_punctuation_is_one_token(src: Seq<char>, pos: int)
    requires
        0 <= pos < src.len(),
        punctuation(src[pos]) is Some,
    ensures
        scan(src, pos) == (Scan { lexeme: Ok(plain(punctuation(src[pos])->0)), next: pos + 1 }),
{
}

/// A maximal run of digits is one lexeme that ends where the run ends: the
/// integer literal of its value if that fits a signed 32-bit integer, and an
/// overflow error, never a wrapped value, if it does not.
pub proof fn lemma_digits_are_one_number(src: Seq<char>, pos: int, end: int)
    requires
        0 <= pos < end <= src.len(),
        forall|i: int| pos <= i < end ==> is_digit(#[trigger] src[i]),
        end < src.len() ==> !is_digit(src[end]),
    ensures
        scan(src, pos).next == end,
        decimal_value(src.subrange(pos, end)) <= i32::MAX ==> scan(src, pos).lexeme == Ok::<
            TokenView,
            LexError,
        >(
            TokenView {
                kind: TokenKind::LIT_INT32,
                payload: Payload::Int(decimal_value(src.subrange(pos, end)) as i32),
            },
        ),
        decimal_value(src.subrange(pos, end)) > i32::MAX ==> scan(src, pos).lexeme == Err::<
            TokenView,
            LexError,
        >(LexError::IntegerOverflow),
{
    lemma_run_end_is(src, pos, end, Run::Digits);
    assert(is_digit(src[pos]));
}

/// A maximal run of letters and digits that starts with a letter is one
/// token that ends where the run ends: the keyword or type name that it
/// spells, or else an identifier that carries exactly that text.
pub proof fn lemma_word_is_one_token(src: Seq<char>, pos: int, end: int)
    requires
        0 <= pos < end <= src.len(),
        is_letter(src[pos]),
        forall|i: int| pos <= i < end ==> is_word_char(#[trigger] src[i]),
        end < src.len() ==> !is_word_char(src[end]),
    ensures
        scan(src, pos).next == end,
        keyword(src.subrange(pos, end)) is None ==> scan(src, pos).lexeme == Ok::<
            TokenView,
            LexError,
        >(TokenView { kind: TokenKind::ID, payload: Payload::Text(src.subrange(pos, end)) }),
        keyword(src.subrange(pos, end)) matches Some(kind) ==> scan(src, pos).lexeme == Ok::<
            TokenView,
            LexError,
        >(plain(kind)),
{
    lemma_run_end_is(src, pos, end, Run::Word);
}

/// The keyword table maps each of the eleven reserved words to its own
/// token kind, so that none of them is ever an identifier.
pub proof fn lemma_keyword_table()
    ensures
        keyword("func"@) == Some(TokenKind::FUNC),
        keyword("let"@) == Some(TokenKind::LET),
        keyword("if"@) == Some(TokenKind::IF),
        keyword("then"@) == Some(TokenKind::THEN),
        keyword("else"@) == Some(TokenKind::ELSE),
        keyword("while"@) == Some(TokenKind::WHILE),
        keyword("print"@) == Some(TokenKind::PRINT),
        keyword("return"@) == Some(TokenKind::RETURN),
        keyword("int32"@) == Some(TokenKind::TYPE_INT32),
        keyword("flt32"@) == Some(TokenKind::TYPE_FLT32),
        keyword("char"@) == Some(TokenKind::TYPE_CHAR),
{
    reveal_strlit("func");
    reveal_strlit("let");
    reveal_strlit("if");
    reveal_strlit("then");
    reveal_strlit("else");
    reveal_strlit("while");
    reveal_strlit("print");
    reveal_strlit("return");
    reveal_strlit("int32");
    reveal_strlit("flt32");
    reveal_strlit("char");
    assert("func"@.len() == 4 && "func"@[0] == 'f');
    assert("let"@.len() == 3 && "let"@[0] == 'l');
    assert("if"@.len() == 2 && "if"@[0] == 'i');
    assert("then"@.len() == 4 && "then"@[0] == 't');
    assert("else"@.len() == 4 && "else"@[0] == 'e');
    assert("while"@.len() == 5 && "while"@[0] == 'w');
    assert("print"@.len() == 5 && "print"@[0] == 'p');
    assert("return"@.len() == 6 && "return"@[0] == 'r');
    assert("int32"@.len() == 5 && "int32"@[0] == 'i');
    assert("flt32"@.len() == 5 && "flt32"@[0] == 'f');
    assert("char"@.len() == 4 && "char"@[0] == 'c');
}

/// A `-` directly before a `>` is one arrow of two characters; before
/// anything else, or at the end of the text, it is one subtraction of one
/// character, and what follows it is left for the next lexeme.
pub proof fn lemma_dash_is_arrow_or_subtraction(src: Seq<char>, pos: int)
    requires
        0 <= pos < src.len(),
        src[pos] == '-',
    ensures
        pos + 1 < src.len() && src[pos + 1] == '>' ==> scan(src, pos) == (Scan {
            lexeme: Ok(plain(TokenKind::ARROW_R)),
            next: pos + 2,
        }),
        !(pos + 1 < src.len() && src[pos + 1] == '>') ==> scan(src, pos) == (Scan {
            lexeme: Ok(plain(TokenKind::SUB)),
            next: pos + 1,
        }),
{
}

/// End-of-input is produced only once the text has been left behind.
pub proof fn lemma_end_of_input_is_at_the_end(src: Seq<char>, pos: int)
    requires
        0 <= pos,
        scan(src, pos).lexeme == Ok::<TokenView, LexError>(plain(TokenKind::EOI)),
    ensures
        scan(src, pos).next >= src.len(),
    decreases src.len() - pos,
{
    if pos < src.len() {
        let c = src[pos];
        if punctuation(c) is None && c != '-' && c != '"' && !is_letter(c) && !is_digit(c) {
            lemma_end_of_input_is_at_the_end(src, pos + 1);
        }
    }
}

/// Once end-of-input has been produced, scanning again from where that left
/// the cursor produces end-of-input again and leaves the cursor where it is.
pub proof fn lemma_end_of_input_repeats(src: Seq<char>, pos: int)
    requires
        0 <= pos,
        scan(src, pos).lexeme == Ok::<TokenView, LexError>(plain(TokenKind::EOI)),
    ensures
        scan(src, scan(src, pos).next) == (Scan {
            lexeme: Ok(plain(TokenKind::EOI)),
            next: scan(src, pos).next,
        }),
{
    lemma_end_of_input_is_at_the_end(src, pos);
}

} // verus!
