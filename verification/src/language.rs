//! The language of the grammar, stated without any parsing order: which
//! stretches of a token stream are a parameter, a statement, a block, a
//! program. The rules of [`crate::grammar`] accept exactly this language,
//! as [`crate::agreement`] proves.

use vstd::prelude::*;
use crate::error::Expected;
use crate::grammar::fits;
use crate::scan::is_final;
use crate::scan::Lexeme;
use crate::token::TokenKind;

verus! {

/// Whether `toks` has the shape of a lexeme stream: it is not empty, its
/// last lexeme is end-of-input or an error, and no other one is.
pub open spec fn is_stream(toks: Seq<Lexeme>) -> bool {
    &&& toks.len() >= 1
    &&& is_final(toks.last())
    &&& forall|i: int| 0 <= i < toks.len() - 1 ==> !is_final(#[trigger] toks[i])
}

/// Whether a token that fits `what` stands at place `i`.
pub open spec fn fits_at(toks: Seq<Lexeme>, i: int, what: Expected) -> bool {
    &&& 0 <= i < toks.len()
    &&& toks[i] matches Ok(token)
    &&& fits(what, token.kind)
}

/// Whether a token of the given kind stands at place `i`.
pub open spec fn token_at(toks: Seq<Lexeme>, i: int, kind: TokenKind) -> bool {
    fits_at(toks, i, Expected::Kind(kind))
}

/// `parameter := id COLON type` from `i` up to `j`.
pub open spec fn derives_parameter(toks: Seq<Lexeme>, i: int, j: int) -> bool {
    &&& j == i + 3
    &&& token_at(toks, i, TokenKind::ID)
    &&& token_at(toks, i + 1, TokenKind::COLON)
    &&& fits_at(toks, i + 2, Expected::Type)
}

/// `{ COMMA parameter }` from `i` up to `j`.
pub open spec fn derives_more_parameters(toks: Seq<Lexeme>, i: int, j: int) -> bool
    decreases j - i,
{
    if i >= j {
        i == j
    } else {
        &&& token_at(toks, i, TokenKind::COMMA)
        &&& derives_parameter(toks, i + 1, i + 4)
        &&& i + 4 <= j
        &&& derives_more_parameters(toks, i + 4, j)
    }
}

/// `parameter-list := LPAREN [ parameter { COMMA parameter } ] RPAREN`
/// from `i` up to `j`.
pub open spec fn derives_parameter_list(toks: Seq<Lexeme>, i: int, j: int) -> bool {
    &&& token_at(toks, i, TokenKind::PARENS_L)
    &&& token_at(toks, j - 1, TokenKind::PARENS_R)
    &&& (j == i + 2 || (derives_parameter(toks, i + 1, i + 4) && derives_more_parameters(
        toks,
        i + 4,
        j - 1,
    )))
}

/// `{ COMMA argument }` from `i` up to `j`.
pub open spec fn derives_more_arguments(toks: Seq<Lexeme>, i: int, j: int) -> bool
    decreases j - i,
{
    if i >= j {
        i == j
    } else {
        &&& token_at(toks, i, TokenKind::COMMA)
        &&& fits_at(toks, i + 1, Expected::Argument)
        &&& i + 2 <= j
        &&& derives_more_arguments(toks, i + 2, j)
    }
}

/// `[ argument { COMMA argument } ] RPAREN` from `i` up to `j`.
pub open spec fn derives_function_arguments(toks: Seq<Lexeme>, i: int, j: int) -> bool {
    &&& token_at(toks, j - 1, TokenKind::PARENS_R)
    &&& (j == i + 1 || (fits_at(toks, i, Expected::Argument) && derives_more_arguments(
        toks,
        i + 1,
        j - 1,
    )))
}

/// `function-call := id LPAREN [ argument { COMMA argument } ] RPAREN`
/// from `i` up to `j`.
pub open spec fn derives_function_call(toks: Seq<Lexeme>, i: int, j: int) -> bool {
    &&& token_at(toks, i, TokenKind::ID)
    &&& token_at(toks, i + 1, TokenKind::PARENS_L)
    &&& derives_function_arguments(toks, i + 2, j)
}

/// A place at which a stretch is cut in two. Always true; it gives the
/// quantifiers over such places something to be found by.
pub open spec fn cut(k: int) -> bool {
    true
}

/// `expression := function-call | variable-access | string-literal`
/// from `i` up to `j`.
pub open spec fn derives_expression(toks: Seq<Lexeme>, i: int, j: int) -> bool
    decreases j - i, 2int,
{
    ||| derives_function_call(toks, i, j)
    ||| (i < j && derives_variable_access(toks, i, j))
    ||| (j == i + 1 && token_at(toks, i, TokenKind::LIT_STRING))
}

/// `variable-access := id { ADD expression }` from `i` up to `j`.
pub open spec fn derives_variable_access(toks: Seq<Lexeme>, i: int, j: int) -> bool
    decreases j - i, 1int,
{
    &&& i < j
    &&& token_at(toks, i, TokenKind::ID)
    &&& derives_additions(toks, i + 1, j)
}

/// `{ ADD expression }` from `i` up to `j`.
pub open spec fn derives_additions(toks: Seq<Lexeme>, i: int, j: int) -> bool
    decreases j - i, 0int,
{
    if i >= j {
        i == j
    } else {
        &&& token_at(toks, i, TokenKind::ADD)
        &&& exists|k: int|
            #[trigger] cut(k) && i + 1 < k <= j && derives_expression(toks, i + 1, k) && derives_additions(
                toks,
                k,
                j,
            )
    }
}

/// `variable-decl := LET id COLON type ASSIGN literal SEMICOLON` from `i`
/// up to `j`.
pub open spec fn derives_variable_declaration(toks: Seq<Lexeme>, i: int, j: int) -> bool {
    &&& j == i + 7
    &&& token_at(toks, i, TokenKind::LET)
    &&& token_at(toks, i + 1, TokenKind::ID)
    &&& token_at(toks, i + 2, TokenKind::COLON)
    &&& fits_at(toks, i + 3, Expected::Type)
    &&& token_at(toks, i + 4, TokenKind::ASSIGN)
    &&& fits_at(toks, i + 5, Expected::Literal)
    &&& token_at(toks, i + 6, TokenKind::SEMICOLON)
}

/// `assignment := id ASSIGN expression SEMICOLON` from `i` up to `j`.
pub open spec fn derives_assignment(toks: Seq<Lexeme>, i: int, j: int) -> bool {
    &&& token_at(toks, i, TokenKind::ID)
    &&& token_at(toks, i + 1, TokenKind::ASSIGN)
    &&& derives_expression(toks, i + 2, j - 1)
    &&& token_at(toks, j - 1, TokenKind::SEMICOLON)
}

/// `print-stmt := PRINT string-literal COMMA id SEMICOLON` from `i` up to `j`.
pub open spec fn derives_print_statement(toks: Seq<Lexeme>, i: int, j: int) -> bool {
    &&& j == i + 5
    &&& token_at(toks, i, TokenKind::PRINT)
    &&& token_at(toks, i + 1, TokenKind::LIT_STRING)
    &&& token_at(toks, i + 2, TokenKind::COMMA)
    &&& token_at(toks, i + 3, TokenKind::ID)
    &&& token_at(toks, i + 4, TokenKind::SEMICOLON)
}

/// `return-stmt := RETURN expression SEMICOLON` from `i` up to `j`.
pub open spec fn derives_return_statement(toks: Seq<Lexeme>, i: int, j: int) -> bool {
    &&& token_at(toks, i, TokenKind::RETURN)
    &&& derives_expression(toks, i + 1, j - 1)
    &&& token_at(toks, j - 1, TokenKind::SEMICOLON)
}

/// `statement := variable-decl | assignment | print-stmt | return-stmt`
/// from `i` up to `j`.
pub open spec fn derives_statement(toks: Seq<Lexeme>, i: int, j: int) -> bool {
    ||| derives_variable_declaration(toks, i, j)
    ||| derives_assignment(toks, i, j)
    ||| derives_print_statement(toks, i, j)
    ||| derives_return_statement(toks, i, j)
}

/// `{ statement }` from `i` up to `j`.
pub open spec fn derives_statements(toks: Seq<Lexeme>, i: int, j: int) -> bool
    decreases j - i,
{
    if i >= j {
        i == j
    } else {
        exists|k: int|
            i < k <= j && #[trigger] derives_statement(toks, i, k) && derives_statements(
                toks,
                k,
                j,
            )
    }
}

/// `block := LBRACKET { block } { statement } RBRACKET` from `i` up to `j`.
pub open spec fn derives_block(toks: Seq<Lexeme>, i: int, j: int) -> bool
    decreases j - i, 0int,
{
    &&& i + 2 <= j
    &&& token_at(toks, i, TokenKind::BRACKET_L)
    &&& token_at(toks, j - 1, TokenKind::BRACKET_R)
    &&& exists|k: int|
        #[trigger] cut(k) && i + 1 <= k <= j - 1 && derives_blocks(toks, i + 1, k) && derives_statements(
            toks,
            k,
            j - 1,
        )
}

/// `{ block }` from `i` up to `j`.
pub open spec fn derives_blocks(toks: Seq<Lexeme>, i: int, j: int) -> bool
    decreases j - i, 1int,
{
    if i >= j {
        i == j
    } else {
        exists|k: int|
            #[trigger] cut(k) && i < k <= j && derives_block(toks, i, k) && derives_blocks(toks, k, j)
    }
}

/// `[ ARROW type ]` from `i` up to `j`.
pub open spec fn derives_return_type(toks: Seq<Lexeme>, i: int, j: int) -> bool {
    ||| (j == i && !token_at(toks, i, TokenKind::ARROW_R))
    ||| (j == i + 2 && token_at(toks, i, TokenKind::ARROW_R) && fits_at(
        toks,
        i + 1,
        Expected::Type,
    ))
}

/// `function := FUNC id parameter-list [ ARROW type ] block` from `i` up
/// to `j`.
pub open spec fn derives_function(toks: Seq<Lexeme>, i: int, j: int) -> bool {
    &&& token_at(toks, i, TokenKind::FUNC)
    &&& token_at(toks, i + 1, TokenKind::ID)
    &&& exists|p: int, b: int|
        i + 2 <= p <= b <= j && #[trigger] derives_parameter_list(toks, i + 2, p)
            && #[trigger] derives_return_type(toks, p, b) && derives_block(toks, b, j)
}

/// `{ function }` from `i` up to `j`.
pub open spec fn derives_functions(toks: Seq<Lexeme>, i: int, j: int) -> bool
    decreases j - i,
{
    if i >= j {
        i == j
    } else {
        exists|k: int|
            i < k <= j && #[trigger] derives_function(toks, i, k) && derives_functions(toks, k, j)
    }
}

/// Whether the stream is a program: functions, and then the end of the input.
pub open spec fn is_program(toks: Seq<Lexeme>) -> bool {
    &&& toks.len() >= 1
    &&& token_at(toks, toks.len() - 1, TokenKind::EOI)
    &&& derives_functions(toks, 0, toks.len() - 1)
}

} // verus!
