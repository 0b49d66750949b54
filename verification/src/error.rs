//! What a parse can fail with.

use vstd::prelude::*;
use crate::scan::LexError;
use crate::token::TokenKind;

verus! {

/// What the grammar asks for at some place of the token stream.
#[derive(Clone, Copy, Debug, PartialEq, Eq, Structural)]
pub enum Expected {
    /// A token of exactly this kind.
    Kind(TokenKind),
    /// A type token: `TYPE_INT32`, `TYPE_FLT32`, `TYPE_CHAR`, `TYPE_STRING`
    /// or `TYPE_BOOL`.
    Type,
    /// An integer, float, character or string literal.
    Literal,
    /// A single token that can stand as the argument of a call: any but a
    /// closing parenthesis and end-of-input.
    Argument,
    /// The first token of a statement: `let`, an identifier, `print` or `return`.
    Statement,
    /// The first token of an expression: an identifier or a string literal.
    Expression,
}

/// Why a parse stopped. The first error ends the parse; nothing is recovered.
#[derive(Clone, Copy, Debug, PartialEq, Eq, Structural)]
pub enum ParseError {
    /// The source text holds something that is no token.
    Lexical(LexError),
    /// The token stream breaks the grammar: `expected` was asked for where a
    /// token of kind `found` stands.
    Grammar { expected: Expected, found: TokenKind },
    /// The binding-power table has no entry for a token kind that reached
    /// the operator-precedence parser. A fault of the table, not of the input.
    MissingBindingPower(TokenKind),
    /// No meaning is defined for a token of this kind at the start of an
    /// expression. A fault of the table, not of the input.
    MissingPrefix(TokenKind),
    /// No meaning is defined for a token of this kind between two operands.
    /// A fault of the table, not of the input.
    MissingInfix(TokenKind),
}

impl LexError {
    /// The text of [`LexError::message`].
    pub open spec fn spec_message(self) -> Seq<char> {
        match self {
            LexError::IntegerOverflow => "Lexical error: integer literal out of range"@,
            LexError::UnterminatedString => "Lexical error: unterminated string literal"@,
        }
    }

    /// A description of the error for the user.
    pub fn message(self) -> (text: String)
        ensures
            text@ == self.spec_message(),
    {
        match self {
            LexError::IntegerOverflow => String::from_str(
                "Lexical error: integer literal out of range",
            ),
            LexError::UnterminatedString => String::from_str(
                "Lexical error: unterminated string literal",
            ),
        }
    }
}

impl Expected {
    /// The text of [`Expected::describe`].
    pub open spec fn spec_describe(self) -> Seq<char> {
        match self {
            Expected::Kind(kind) => kind.spec_name(),
            Expected::Type => "a type"@,
            Expected::Literal => "a literal"@,
            Expected::Argument => "an argument"@,
            Expected::Statement => "a statement"@,
            Expected::Expression => "an expression"@,
        }
    }

    /// The name of what is expected, as messages write it.
    pub fn describe(self) -> (text: &'static str)
        ensures
            text@ == self.spec_describe(),
    {
        match self {
            Expected::Kind(kind) => kind.name(),
            Expected::Type => "a type",
            Expected::Literal => "a literal",
            Expected::Argument => "an argument",
            Expected::Statement => "a statement",
            Expected::Expression => "an expression",
        }
    }
}

impl ParseError {
    /// The text of [`ParseError::message`].
    pub open spec fn spec_message(self) -> Seq<char> {
        match self {
            ParseError::Lexical(error) => error.spec_message(),
            ParseError::Grammar { expected, found } => "Grammar violation: expected "@
                + expected.spec_describe() + ", but got "@ + found.spec_name(),
            ParseError::MissingBindingPower(kind) => "Internal error: missing binding powers for token "@
                + kind.spec_name(),
            ParseError::MissingPrefix(kind) => "Internal error: missing prefix function for token "@
                + kind.spec_name(),
            ParseError::MissingInfix(kind) => "Internal error: missing infix function for token "@
                + kind.spec_name(),
        }
    }

    /// A description of the error for the user. It names the expected and
    /// the actual token kind of a grammar violation, and tells a violation
    /// of the grammar from a lexical error and from a fault of the tables.
    pub fn message(self) -> (text: String)
        ensures
            text@ == self.spec_message(),
    {
        match self {
            ParseError::Lexical(error) => error.message(),
            ParseError::Grammar { expected, found } => {
                let mut text = String::from_str("Grammar violation: expected ");
                text.append(expected.describe());
                text.append(", but got ");
                text.append(found.name());
                text
            },
            ParseError::MissingBindingPower(kind) => {
                let mut text = String::from_str("Internal error: missing binding powers for token ");
                text.append(kind.name());
                text
            },
            ParseError::MissingPrefix(kind) => {
                let mut text = String::from_str("Internal error: missing prefix function for token ");
                text.append(kind.name());
                text
            },
            ParseError::MissingInfix(kind) => {
                let mut text = String::from_str("Internal error: missing infix function for token ");
                text.append(kind.name());
                text
            },
        }
    }
}

} // verus!
