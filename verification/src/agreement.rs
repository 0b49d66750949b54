//! The rules for statements, blocks, functions and programs accept exactly
//! the stretches that the language of [`crate::language`] describes.

use vstd::prelude::*;
use crate::grammar;
use crate::agreement_expressions::accepts;
use crate::agreement_expressions::lemma_at;
use crate::agreement_expressions::lemma_expression_complete;
use crate::agreement_expressions::lemma_expression_sound;
use crate::agreement_expressions::lemma_parameter_list_complete;
use crate::agreement_expressions::lemma_parameter_list_sound;
use crate::agreement_expressions::place;
use crate::agreement_expressions::well_placed;
use crate::error::Expected;
use crate::language::cut;
use crate::language::derives_assignment;
use crate::language::derives_block;
use crate::language::derives_blocks;
use crate::language::derives_function;
use crate::language::derives_functions;
use crate::language::derives_parameter_list;
use crate::language::derives_print_statement;
use crate::language::derives_return_type;
use crate::language::derives_statement;
use crate::language::derives_statements;
use crate::language::derives_variable_declaration;
use crate::language::fits_at;
use crate::language::is_program;
use crate::language::is_stream;
use crate::language::token_at;
use crate::scan::Lexeme;
use crate::token::TokenKind;

verus! {

/// What is accepted as a statement is a statement of the language.
pub proof fn lemma_statement_sound(toks: Seq<Lexeme>, i: int)
    requires
        is_stream(toks),
        0 <= i < toks.len(),
    ensures
        well_placed(toks, i, grammar::statement(toks.skip(i))),
        grammar::statement(toks.skip(i)) matches Ok(after) ==> derives_statement(
            toks,
            i,
            place(toks, after),
        ) && i < place(toks, after),
{
    lemma_at(toks, i);
    if i + 1 < toks.len() {
        lemma_at(toks, i + 1);
    }
    if token_at(toks, i, TokenKind::LET) {
        if i + 2 < toks.len() {
            lemma_at(toks, i + 2);
        }
        if i + 3 < toks.len() {
            lemma_at(toks, i + 3);
        }
        if i + 4 < toks.len() {
            lemma_at(toks, i + 4);
        }
        if i + 5 < toks.len() {
            lemma_at(toks, i + 5);
        }
        if i + 6 < toks.len() {
            lemma_at(toks, i + 6);
        }
    } else if token_at(toks, i, TokenKind::ID) {
        if token_at(toks, i + 1, TokenKind::ASSIGN) {
            lemma_expression_sound(toks, i + 2);
            if let Ok(mid) = grammar::expression(toks.skip(i + 2)) {
                lemma_at(toks, place(toks, mid));
            }
        }
    } else if token_at(toks, i, TokenKind::PRINT) {
        if i + 2 < toks.len() {
            lemma_at(toks, i + 2);
        }
        if i + 3 < toks.len() {
            lemma_at(toks, i + 3);
        }
        if i + 4 < toks.len() {
            lemma_at(toks, i + 4);
        }
    } else if token_at(toks, i, TokenKind::RETURN) {
        lemma_expression_sound(toks, i + 1);
        if let Ok(mid) = grammar::expression(toks.skip(i + 1)) {
            lemma_at(toks, place(toks, mid));
        }
    }
}

/// A statement of the language is accepted.
pub proof fn lemma_statement_complete(toks: Seq<Lexeme>, i: int, j: int)
    requires
        is_stream(toks),
        0 <= i <= j < toks.len(),
        derives_statement(toks, i, j),
    ensures
        accepts(toks, grammar::statement(toks.skip(i)), j),
        fits_at(toks, i, Expected::Statement),
        i < j,
{
    lemma_at(toks, i);
    lemma_at(toks, i + 1);
    if derives_variable_declaration(toks, i, j) {
        lemma_at(toks, i + 2);
        lemma_at(toks, i + 3);
        lemma_at(toks, i + 4);
        lemma_at(toks, i + 5);
        lemma_at(toks, i + 6);
    } else if derives_assignment(toks, i, j) {
        lemma_at(toks, j - 1);
        lemma_expression_complete(toks, i + 2, j - 1, j - 1);
    } else if derives_print_statement(toks, i, j) {
        lemma_at(toks, i + 2);
        lemma_at(toks, i + 3);
        lemma_at(toks, i + 4);
    } else {
        lemma_at(toks, j - 1);
        lemma_expression_complete(toks, i + 1, j - 1, j - 1);
    }
}

/// What is accepted as statements are statements of the language.
pub proof fn lemma_statements_sound(toks: Seq<Lexeme>, i: int)
    requires
        is_stream(toks),
        0 <= i < toks.len(),
    ensures
        well_placed(toks, i, grammar::statements(toks.skip(i))),
        grammar::statements(toks.skip(i)) matches Ok(after) ==> derives_statements(
            toks,
            i,
            place(toks, after),
        ),
    decreases toks.len() - i,
{
    lemma_at(toks, i);
    if fits_at(toks, i, Expected::Statement) {
        lemma_statement_sound(toks, i);
        if let Ok(mid) = grammar::statement(toks.skip(i)) {
            let k = place(toks, mid);
            lemma_statements_sound(toks, k);
            if let Ok(after) = grammar::statements(mid) {
                let j = place(toks, after);
                assert(derives_statement(toks, i, k) && derives_statements(toks, k, j));
            }
        }
    }
}

/// Statements of the language are accepted, if no token that starts a
/// statement follows.
pub proof fn lemma_statements_complete(toks: Seq<Lexeme>, i: int, j: int)
    requires
        is_stream(toks),
        0 <= i <= j < toks.len(),
        derives_statements(toks, i, j),
        !fits_at(toks, j, Expected::Statement),
    ensures
        accepts(toks, grammar::statements(toks.skip(i)), j),
        i < j ==> fits_at(toks, i, Expected::Statement),
    decreases j - i,
{
    lemma_at(toks, i);
    if i < j {
        let k = choose|k: int|
            i < k <= j && #[trigger] derives_statement(toks, i, k) && derives_statements(
                toks,
                k,
                j,
            );
        lemma_statement_complete(toks, i, k);
        lemma_statements_complete(toks, k, j);
    }
}

/// What is accepted as a block is a block of the language.
pub proof fn lemma_block_sound(toks: Seq<Lexeme>, i: int)
    requires
        is_stream(toks),
        0 <= i < toks.len(),
    ensures
        well_placed(toks, i, grammar::block(toks.skip(i))),
        grammar::block(toks.skip(i)) matches Ok(after) ==> derives_block(
            toks,
            i,
            place(toks, after),
        ),
    decreases toks.len() - i, 0int,
{
    lemma_at(toks, i);
    if token_at(toks, i, TokenKind::BRACKET_L) {
        lemma_blocks_sound(toks, i + 1);
        if let Ok(inner) = grammar::blocks(toks.skip(i + 1)) {
            let k = place(toks, inner);
            lemma_statements_sound(toks, k);
            if let Ok(body) = grammar::statements(inner) {
                let close = place(toks, body);
                lemma_at(toks, close);
                if token_at(toks, close, TokenKind::BRACKET_R) {
                    assert(cut(k) && derives_blocks(toks, i + 1, k) && derives_statements(toks, k, close));
                }
            }
        }
    }
}

/// What is accepted as nested blocks are blocks of the language.
pub proof fn lemma_blocks_sound(toks: Seq<Lexeme>, i: int)
    requires
        is_stream(toks),
        0 <= i < toks.len(),
    ensures
        well_placed(toks, i, grammar::blocks(toks.skip(i))),
        grammar::blocks(toks.skip(i)) matches Ok(after) ==> derives_blocks(
            toks,
            i,
            place(toks, after),
        ),
    decreases toks.len() - i, 1int,
{
    lemma_at(toks, i);
    if token_at(toks, i, TokenKind::BRACKET_L) {
        lemma_block_sound(toks, i);
        if let Ok(mid) = grammar::block(toks.skip(i)) {
            let k = place(toks, mid);
            if mid.len() < toks.skip(i).len() {
                lemma_blocks_sound(toks, k);
                if let Ok(after) = grammar::blocks(mid) {
                    let j = place(toks, after);
                    assert(cut(k) && derives_block(toks, i, k) && derives_blocks(toks, k, j));
                }
            }
        }
    }
}

/// A block of the language is accepted.
pub proof fn lemma_block_complete(toks: Seq<Lexeme>, i: int, j: int)
    requires
        is_stream(toks),
        0 <= i <= j < toks.len(),
        derives_block(toks, i, j),
    ensures
        accepts(toks, grammar::block(toks.skip(i)), j),
    decreases j - i, 0int,
{
    lemma_at(toks, i);
    lemma_at(toks, j - 1);
    let k = choose|k: int|
        #[trigger] cut(k) && i + 1 <= k <= j - 1 && derives_blocks(toks, i + 1, k) && derives_statements(
            toks,
            k,
            j - 1,
        );
    lemma_at(toks, k);
    lemma_statements_complete(toks, k, j - 1);
    lemma_blocks_complete(toks, i + 1, k);
}

/// Nested blocks of the language are accepted, if no opening bracket follows.
pub proof fn lemma_blocks_complete(toks: Seq<Lexeme>, i: int, j: int)
    requires
        is_stream(toks),
        0 <= i <= j < toks.len(),
        derives_blocks(toks, i, j),
        !token_at(toks, j, TokenKind::BRACKET_L),
    ensures
        accepts(toks, grammar::blocks(toks.skip(i)), j),
    decreases j - i, 1int,
{
    lemma_at(toks, i);
    if i < j {
        let k = choose|k: int|
            #[trigger] cut(k) && i < k <= j && derives_block(toks, i, k) && derives_blocks(toks, k, j);
        lemma_block_complete(toks, i, k);
        lemma_blocks_complete(toks, k, j);
    }
}

/// What is accepted as a function is a function of the language.
pub proof fn lemma_function_sound(toks: Seq<Lexeme>, i: int)
    requires
        is_stream(toks),
        0 <= i < toks.len(),
    ensures
        well_placed(toks, i, grammar::function(toks.skip(i))),
        grammar::function(toks.skip(i)) matches Ok(after) ==> derives_function(
            toks,
            i,
            place(toks, after),
        ) && i < place(toks, after),
{
    lemma_at(toks, i);
    if token_at(toks, i, TokenKind::FUNC) {
        lemma_at(toks, i + 1);
        if token_at(toks, i + 1, TokenKind::ID) {
            lemma_parameter_list_sound(toks, i + 2);
            if let Ok(a) = grammar::parameter_list(toks.skip(i + 2)) {
                let p = place(toks, a);
                lemma_at(toks, p);
                if p + 1 < toks.len() {
                    lemma_at(toks, p + 1);
                }
                if let Ok(c) = grammar::return_type(a) {
                    let b = place(toks, c);
                    lemma_block_sound(toks, b);
                    if let Ok(after) = grammar::block(c) {
                        let j = place(toks, after);
                        assert(derives_parameter_list(toks, i + 2, p) && derives_return_type(
                            toks,
                            p,
                            b,
                        ) && derives_block(toks, b, j));
                    }
                }
            }
        }
    }
}

/// A function of the language is accepted.
pub proof fn lemma_function_complete(toks: Seq<Lexeme>, i: int, j: int)
    requires
        is_stream(toks),
        0 <= i <= j < toks.len(),
        derives_function(toks, i, j),
    ensures
        accepts(toks, grammar::function(toks.skip(i)), j),
        i < j,
{
    lemma_at(toks, i);
    lemma_at(toks, i + 1);
    let (p, b) = choose|p: int, b: int|
        i + 2 <= p <= b <= j && #[trigger] derives_parameter_list(toks, i + 2, p)
            && #[trigger] derives_return_type(toks, p, b) && derives_block(toks, b, j);
    lemma_parameter_list_complete(toks, i + 2, p);
    lemma_at(toks, p);
    if p + 1 < toks.len() {
        lemma_at(toks, p + 1);
    }
    lemma_block_complete(toks, b, j);
}

/// What is accepted as a program is functions of the language up to the
/// last place of the stream, where end-of-input stands.
pub proof fn lemma_program_sound(toks: Seq<Lexeme>, i: int)
    requires
        is_stream(toks),
        0 <= i < toks.len(),
    ensures
        grammar::program(toks.skip(i)) is Ok ==> derives_functions(toks, i, toks.len() - 1)
            && token_at(toks, toks.len() - 1, TokenKind::EOI),
    decreases toks.len() - i,
{
    lemma_at(toks, i);
    if token_at(toks, i, TokenKind::FUNC) {
        lemma_function_sound(toks, i);
        if let Ok(mid) = grammar::function(toks.skip(i)) {
            let k = place(toks, mid);
            lemma_program_sound(toks, k);
            if grammar::program(mid) is Ok {
                assert(derives_function(toks, i, k) && derives_functions(
                    toks,
                    k,
                    toks.len() - 1,
                ));
            }
        }
    }
}

/// Functions of the language up to the last place of the stream are
/// accepted as a program, if end-of-input stands there.
pub proof fn lemma_program_complete(toks: Seq<Lexeme>, i: int)
    requires
        is_stream(toks),
        0 <= i < toks.len(),
        derives_functions(toks, i, toks.len() - 1),
        token_at(toks, toks.len() - 1, TokenKind::EOI),
    ensures
        grammar::program(toks.skip(i)) is Ok,
    decreases toks.len() - i,
{
    lemma_at(toks, i);
    let j = toks.len() - 1;
    if i < j {
        let k = choose|k: int|
            i < k <= j && #[trigger] derives_function(toks, i, k) && derives_functions(toks, k, j);
        lemma_function_complete(toks, i, k);
        lemma_program_complete(toks, k);
    }
}

/// The grammar accepts a stream exactly if it is a program of the language.
pub proof fn lemma_program_is_the_language(toks: Seq<Lexeme>)
    requires
        is_stream(toks),
    ensures
        grammar::program(toks) is Ok <==> is_program(toks),
{
    assert(toks.skip(0) =~= toks);
    lemma_program_sound(toks, 0);
    if is_program(toks) {
        lemma_program_complete(toks, 0);
    }
}

} // verus!
