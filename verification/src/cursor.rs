//! The cursor that both parsers share: a lexer and one token of lookahead.

use vstd::prelude::*;
use crate::error::Expected;
use crate::error::ParseError;
use crate::grammar::expect;
use crate::grammar::failure;
use crate::grammar::fits;
use crate::grammar::head;
use crate::grammar::head_fits;
use crate::grammar::head_is;
use crate::grammar::rest;
use crate::grammar::Parsed;
use crate::language::is_stream;
use crate::lexer::lexeme_of;
use crate::lexer::Lexer;
use crate::scan::is_final;
use crate::scan::lemma_stream_shape;
use crate::scan::lex_from;
use crate::scan::LexError;
use crate::scan::Lexeme;
use crate::token::Token;
use crate::token::TokenKind;

verus! {

/// What a rule has made of the stream: `left` if it succeeded, its error if not.
pub open spec fn outcome(result: Result<(), ParseError>, left: Seq<Lexeme>) -> Parsed {
    match result {
        Ok(_) => Ok(left),
        Err(error) => Err(error),
    }
}

/// Whether a token of kind `kind` is what `what` asks for.
pub fn admits(what: Expected, kind: TokenKind) -> (yes: bool)
    ensures
        yes == fits(what, kind),
{
    match what {
        Expected::Kind(wanted) => kind == wanted,
        Expected::Type => kind == TokenKind::TYPE_INT32 || kind == TokenKind::TYPE_FLT32 || kind
            == TokenKind::TYPE_CHAR || kind == TokenKind::TYPE_STRING || kind
            == TokenKind::TYPE_BOOL,
        Expected::Literal => kind == TokenKind::LIT_INT32 || kind == TokenKind::LIT_FLT32 || kind
            == TokenKind::LIT_CHAR || kind == TokenKind::LIT_STRING,
        Expected::Argument => kind != TokenKind::PARENS_R && kind != TokenKind::EOI,
        Expected::Statement => kind == TokenKind::LET || kind == TokenKind::ID || kind
            == TokenKind::PRINT || kind == TokenKind::RETURN,
        Expected::Expression => kind == TokenKind::ID || kind == TokenKind::LIT_STRING,
    }
}

/// A lexer together with the lexeme under the cursor, which has been read
/// from the lexer but not yet consumed by a parser.
pub struct TokenCursor {
    lexer: Lexer,
    current: Result<Token, LexError>,
}

impl TokenCursor {
    /// The lexemes that are still to be consumed, the one under the cursor
    /// first. The last one is end-of-input or an error, and it stays: a
    /// cursor never moves past it.
    pub closed spec fn remaining(&self) -> Seq<Lexeme> {
        if is_final(lexeme_of(self.current)) {
            seq![lexeme_of(self.current)]
        } else {
            seq![lexeme_of(self.current)] + lex_from(self.lexer@.source, self.lexer@.cursor)
        }
    }

    /// What remains has the shape of a lexeme stream.
    pub proof fn lemma_remaining_is_a_stream(&self)
        ensures
            is_stream(self.remaining()),
    {
        lemma_stream_shape(self.lexer@.source, self.lexer@.cursor);
    }

    /// A cursor on the first lexeme that `lexer` has not yet produced.
    pub fn new(lexer: Lexer) -> (cursor: TokenCursor)
        ensures
            cursor.remaining() == lex_from(lexer@.source, lexer@.cursor),
    {
        let mut lexer = lexer;
        let current = lexer.advance();
        TokenCursor { lexer, current }
    }

    /// The lexeme under the cursor.
    pub fn current(&self) -> (lexeme: Result<Token, LexError>)
        ensures
            lexeme_of(lexeme) == head(self.remaining()),
    {
        match &self.current {
            Ok(token) => Ok(token.clone()),
            Err(error) => Err(*error),
        }
    }

    /// Moves to the next lexeme, unless the cursor is on the last one.
    pub fn advance(&mut self)
        ensures
            final(self).remaining() == rest(old(self).remaining()),
    {
        let last = match &self.current {
            Ok(token) => token.kind() == TokenKind::EOI,
            Err(_) => true,
        };
        if !last {
            let ghost tail = lex_from(self.lexer@.source, self.lexer@.cursor);
            assert(self.remaining().skip(1) =~= tail);
            let next = self.lexer.advance();
            self.current = next;
        }
    }

    /// Whether the lexeme under the cursor is a token that fits `what`.
    pub fn looking_at(&self, what: Expected) -> (yes: bool)
        ensures
            yes == head_fits(self.remaining(), what),
    {
        match &self.current {
            Ok(token) => admits(what, token.kind()),
            Err(_) => false,
        }
    }

    /// Whether the lexeme after the one under the cursor is a token of the
    /// given kind.
    pub fn next_is(&self, kind: TokenKind) -> (yes: bool)
        ensures
            yes == head_is(rest(self.remaining()), kind),
    {
        let last = match &self.current {
            Ok(token) => token.kind() == TokenKind::EOI,
            Err(_) => true,
        };
        if last {
            self.looking_at(Expected::Kind(kind))
        } else {
            let ghost tail = lex_from(self.lexer@.source, self.lexer@.cursor);
            assert(self.remaining().skip(1) =~= tail);
            match self.lexer.peek_next() {
                Ok(token) => token.kind() == kind,
                Err(_) => false,
            }
        }
    }

    /// The error to report when the lexeme under the cursor is not what
    /// `what` asks for.
    pub fn failure(&self, what: Expected) -> (error: ParseError)
        ensures
            error == failure(self.remaining(), what),
    {
        match &self.current {
            Ok(token) => ParseError::Grammar { expected: what, found: token.kind() },
            Err(error) => ParseError::Lexical(*error),
        }
    }

    /// Requires a token that fits `what` under the cursor and consumes it.
    pub fn expect(&mut self, what: Expected) -> (result: Result<(), ParseError>)
        ensures
            outcome(result, final(self).remaining()) == expect(old(self).remaining(), what),
            result is Err ==> final(self).remaining() == old(self).remaining(),
    {
        if self.looking_at(what) {
            self.advance();
            Ok(())
        } else {
            Err(self.failure(what))
        }
    }

    /// Consumes the token under the cursor if it fits `what`, and says
    /// whether it did.
    pub fn accept(&mut self, what: Expected) -> (yes: bool)
        ensures
            yes == head_fits(old(self).remaining(), what),
            final(self).remaining() == if yes {
                rest(old(self).remaining())
            } else {
                old(self).remaining()
            },
    {
        if self.looking_at(what) {
            self.advance();
            true
        } else {
            false
        }
    }
}

} // verus!
