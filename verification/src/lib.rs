//! Front end of a small imperative language: a tokenizer, a recursive-descent
//! validator for declarations and statements, and an operator-precedence
//! parser that builds expression trees.
//!
//! - [`token`]: the tokens, their kinds and their payloads.
//! - [`scan`]: the lexical grammar, as a function from a text and a position
//!   to the lexeme that stands there.
//! - [`lexer`]: the scanner, a finite-state machine that produces the
//!   lexemes of [`scan`] one at a time.
//! - [`cursor`]: a lexer with one token of lookahead, shared by the parsers.
//! - [`grammar`]: the rules for declarations and statements, as functions
//!   on lexeme streams; [`language`]: the same language without any parsing
//!   order; [`agreement`] and [`agreement_expressions`]: the proof that the
//!   two agree.
//! - [`parser_descent`]: the recursive-descent parser for [`grammar`].
//! - [`precedence`]: the binding powers and the trees that they give;
//!   [`parser_pratt`]: the operator-precedence parser for them.
//! - [`parse_tree`]: the trees, and their text.
//! - [`error`]: what a parse can fail with; [`text`]: strings and characters.

pub mod agreement;
pub mod agreement_expressions;
pub mod cursor;
pub mod error;
pub mod grammar;
pub mod language;
pub mod lexer;
pub mod parse_tree;
pub mod parser_descent;
pub mod parser_pratt;
pub mod precedence;
pub mod scan;
pub mod text;
pub mod token;
