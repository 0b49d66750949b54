//! The rules for parameters, arguments, calls and expressions accept
//! exactly the stretches that the language of [`crate::language`] describes.

use vstd::prelude::*;
use crate::grammar;
use crate::error::Expected;
use crate::error::ParseError;
use crate::grammar::fits;
use crate::grammar::head;
use crate::grammar::head_fits;
use crate::grammar::head_is;
use crate::grammar::rest;
use crate::language::cut;
use crate::language::derives_additions;
use crate::language::derives_expression;
use crate::language::derives_function_arguments;
use crate::language::derives_function_call;
use crate::language::derives_more_arguments;
use crate::language::derives_more_parameters;
use crate::language::derives_parameter;
use crate::language::derives_parameter_list;
use crate::language::derives_variable_access;
use crate::language::fits_at;
use crate::language::is_stream;
use crate::language::token_at;
use crate::scan::Lexeme;
use crate::token::TokenKind;

verus! {

/// The place in `toks` at which `after` begins, if `after` is what a rule
/// has left of `toks`.
pub open spec fn place(toks: Seq<Lexeme>, after: Seq<Lexeme>) -> int {
    toks.len() - after.len()
}

/// Whether `outcome` is the acceptance of the stretch from `i` up to `j`.
pub open spec fn accepts(toks: Seq<Lexeme>, outcome: grammar::Parsed, j: int) -> bool {
    outcome == Ok::<Seq<Lexeme>, ParseError>(toks.skip(j))
}

/// What the stream looks like from a place that is not its last: a token
/// stands there, and the stream goes on behind it.
pub proof fn lemma_at(toks: Seq<Lexeme>, i: int)
    requires
        is_stream(toks),
        0 <= i < toks.len(),
    ensures
        head(toks.skip(i)) == toks[i],
        forall|what: Expected| #[trigger] head_fits(toks.skip(i), what) == fits_at(toks, i, what),
        forall|kind: TokenKind| #[trigger] head_is(toks.skip(i), kind) == token_at(toks, i, kind),
        i < toks.len() - 1 ==> rest(toks.skip(i)) == toks.skip(i + 1),
        i == toks.len() - 1 ==> rest(toks.skip(i)) == toks.skip(i),
        forall|what: Expected|
            !fits(what, TokenKind::EOI) && #[trigger] fits_at(toks, i, what) ==> i < toks.len() - 1,
{
    assert(toks.skip(i).skip(1) =~= toks.skip(i + 1));
}

/// Whether a rule that has turned the stream from place `i` on into
/// `outcome` has, if it accepted, left the stream from some later place on.
pub open spec fn well_placed(toks: Seq<Lexeme>, i: int, outcome: grammar::Parsed) -> bool {
    outcome matches Ok(after) ==> i <= place(toks, after) < toks.len() && after == toks.skip(
        place(toks, after),
    )
}

/// A parameter is accepted exactly where a parameter of the language stands.
pub proof fn lemma_parameter(toks: Seq<Lexeme>, i: int)
    requires
        is_stream(toks),
        0 <= i < toks.len(),
    ensures
        grammar::parameter(toks.skip(i)) is Ok <==> derives_parameter(toks, i, i + 3),
        grammar::parameter(toks.skip(i)) is Ok ==> i + 3 < toks.len() && accepts(
            toks,
            grammar::parameter(toks.skip(i)),
            i + 3,
        ),
{
    lemma_at(toks, i);
    if i + 1 < toks.len() {
        lemma_at(toks, i + 1);
    }
    if i + 2 < toks.len() {
        lemma_at(toks, i + 2);
    }
}

/// What is accepted as further parameters is a stretch of further
/// parameters of the language.
pub proof fn lemma_more_parameters_sound(toks: Seq<Lexeme>, i: int)
    requires
        is_stream(toks),
        0 <= i < toks.len(),
    ensures
        well_placed(toks, i, grammar::more_parameters(toks.skip(i))),
        grammar::more_parameters(toks.skip(i)) matches Ok(after) ==> derives_more_parameters(
            toks,
            i,
            place(toks, after),
        ),
    decreases toks.len() - i,
{
    lemma_at(toks, i);
    if token_at(toks, i, TokenKind::COMMA) {
        lemma_parameter(toks, i + 1);
        if grammar::parameter(toks.skip(i + 1)) is Ok {
            lemma_more_parameters_sound(toks, i + 4);
        }
    }
}

/// A stretch of further parameters of the language is accepted, if no
/// comma follows it.
pub proof fn lemma_more_parameters_complete(toks: Seq<Lexeme>, i: int, j: int)
    requires
        is_stream(toks),
        0 <= i <= j < toks.len(),
        derives_more_parameters(toks, i, j),
        !token_at(toks, j, TokenKind::COMMA),
    ensures
        accepts(toks, grammar::more_parameters(toks.skip(i)), j),
    decreases j - i,
{
    lemma_at(toks, i);
    if i < j {
        lemma_parameter(toks, i + 1);
        lemma_more_parameters_complete(toks, i + 4, j);
    }
}

/// What is accepted as a parameter list is a parameter list of the language.
pub proof fn lemma_parameter_list_sound(toks: Seq<Lexeme>, i: int)
    requires
        is_stream(toks),
        0 <= i < toks.len(),
    ensures
        well_placed(toks, i, grammar::parameter_list(toks.skip(i))),
        grammar::parameter_list(toks.skip(i)) matches Ok(after) ==> derives_parameter_list(
            toks,
            i,
            place(toks, after),
        ),
{
    lemma_at(toks, i);
    if token_at(toks, i, TokenKind::PARENS_L) {
        lemma_at(toks, i + 1);
        if !token_at(toks, i + 1, TokenKind::PARENS_R) {
            lemma_parameter(toks, i + 1);
            if grammar::parameter(toks.skip(i + 1)) is Ok {
                lemma_more_parameters_sound(toks, i + 4);
                if let Ok(after) = grammar::more_parameters(toks.skip(i + 4)) {
                    lemma_at(toks, place(toks, after));
                }
            }
        }
    }
}

/// A parameter list of the language is accepted.
pub proof fn lemma_parameter_list_complete(toks: Seq<Lexeme>, i: int, j: int)
    requires
        is_stream(toks),
        0 <= i <= j < toks.len(),
        derives_parameter_list(toks, i, j),
    ensures
        accepts(toks, grammar::parameter_list(toks.skip(i)), j),
{
    lemma_at(toks, i);
    lemma_at(toks, i + 1);
    lemma_at(toks, j - 1);
    if j != i + 2 {
        lemma_parameter(toks, i + 1);
        lemma_more_parameters_complete(toks, i + 4, j - 1);
    }
}

/// What is accepted as further arguments is a stretch of further arguments
/// of the language.
pub proof fn lemma_more_arguments_sound(toks: Seq<Lexeme>, i: int)
    requires
        is_stream(toks),
        0 <= i < toks.len(),
    ensures
        well_placed(toks, i, grammar::more_arguments(toks.skip(i))),
        grammar::more_arguments(toks.skip(i)) matches Ok(after) ==> derives_more_arguments(
            toks,
            i,
            place(toks, after),
        ),
    decreases toks.len() - i,
{
    lemma_at(toks, i);
    if token_at(toks, i, TokenKind::COMMA) {
        lemma_at(toks, i + 1);
        if fits_at(toks, i + 1, Expected::Argument) {
            lemma_more_arguments_sound(toks, i + 2);
        }
    }
}

/// A stretch of further arguments of the language is accepted, if no comma
/// follows it.
pub proof fn lemma_more_arguments_complete(toks: Seq<Lexeme>, i: int, j: int)
    requires
        is_stream(toks),
        0 <= i <= j < toks.len(),
        derives_more_arguments(toks, i, j),
        !token_at(toks, j, TokenKind::COMMA),
    ensures
        accepts(toks, grammar::more_arguments(toks.skip(i)), j),
    decreases j - i,
{
    lemma_at(toks, i);
    if i < j {
        lemma_at(toks, i + 1);
        lemma_more_arguments_complete(toks, i + 2, j);
    }
}

/// What is accepted as the arguments of a call are arguments of the language.
pub proof fn lemma_function_arguments_sound(toks: Seq<Lexeme>, i: int)
    requires
        is_stream(toks),
        0 <= i < toks.len(),
    ensures
        well_placed(toks, i, grammar::function_arguments(toks.skip(i))),
        grammar::function_arguments(toks.skip(i)) matches Ok(after)
            ==> derives_function_arguments(toks, i, place(toks, after)) && i < place(toks, after),
{
    lemma_at(toks, i);
    if !token_at(toks, i, TokenKind::PARENS_R) && fits_at(toks, i, Expected::Argument) {
        lemma_more_arguments_sound(toks, i + 1);
        if let Ok(after) = grammar::more_arguments(toks.skip(i + 1)) {
            lemma_at(toks, place(toks, after));
        }
    }
}

/// The arguments of a call of the language are accepted.
pub proof fn lemma_function_arguments_complete(toks: Seq<Lexeme>, i: int, j: int)
    requires
        is_stream(toks),
        0 <= i <= j < toks.len(),
        derives_function_arguments(toks, i, j),
    ensures
        accepts(toks, grammar::function_arguments(toks.skip(i)), j),
{
    lemma_at(toks, i);
    lemma_at(toks, j - 1);
    if j != i + 1 {
        lemma_more_arguments_complete(toks, i + 1, j - 1);
    }
}

/// What is accepted as a call is a call of the language.
pub proof fn lemma_function_call_sound(toks: Seq<Lexeme>, i: int)
    requires
        is_stream(toks),
        0 <= i < toks.len(),
    ensures
        well_placed(toks, i, grammar::function_call(toks.skip(i))),
        grammar::function_call(toks.skip(i)) matches Ok(after) ==> derives_function_call(
            toks,
            i,
            place(toks, after),
        ) && i < place(toks, after),
{
    lemma_at(toks, i);
    if token_at(toks, i, TokenKind::ID) {
        lemma_at(toks, i + 1);
        if token_at(toks, i + 1, TokenKind::PARENS_L) {
            lemma_function_arguments_sound(toks, i + 2);
        }
    }
}

/// A call of the language is accepted.
pub proof fn lemma_function_call_complete(toks: Seq<Lexeme>, i: int, j: int)
    requires
        is_stream(toks),
        0 <= i <= j < toks.len(),
        derives_function_call(toks, i, j),
    ensures
        accepts(toks, grammar::function_call(toks.skip(i)), j),
{
    lemma_at(toks, i);
    lemma_at(toks, i + 1);
    lemma_function_arguments_complete(toks, i + 2, j);
}

/// What is accepted as an expression is an expression of the language.
pub proof fn lemma_expression_sound(toks: Seq<Lexeme>, i: int)
    requires
        is_stream(toks),
        0 <= i < toks.len(),
    ensures
        well_placed(toks, i, grammar::expression(toks.skip(i))),
        grammar::expression(toks.skip(i)) matches Ok(after) ==> derives_expression(
            toks,
            i,
            place(toks, after),
        ) && i < place(toks, after),
    decreases toks.len() - i, 2int,
{
    lemma_at(toks, i);
    if token_at(toks, i, TokenKind::ID) {
        lemma_at(toks, i + 1);
        if token_at(toks, i + 1, TokenKind::PARENS_L) {
            lemma_function_call_sound(toks, i);
        } else {
            lemma_variable_access_sound(toks, i);
        }
    }
}

/// What is accepted as a variable access is one of the language.
pub proof fn lemma_variable_access_sound(toks: Seq<Lexeme>, i: int)
    requires
        is_stream(toks),
        0 <= i < toks.len(),
    ensures
        well_placed(toks, i, grammar::variable_access(toks.skip(i))),
        grammar::variable_access(toks.skip(i)) matches Ok(after) ==> derives_variable_access(
            toks,
            i,
            place(toks, after),
        ),
    decreases toks.len() - i, 1int,
{
    lemma_at(toks, i);
    if token_at(toks, i, TokenKind::ID) {
        lemma_additions_sound(toks, i + 1);
    }
}

/// What is accepted as additions are additions of the language.
pub proof fn lemma_additions_sound(toks: Seq<Lexeme>, i: int)
    requires
        is_stream(toks),
        0 <= i < toks.len(),
    ensures
        well_placed(toks, i, grammar::additions(toks.skip(i))),
        grammar::additions(toks.skip(i)) matches Ok(after) ==> derives_additions(
            toks,
            i,
            place(toks, after),
        ),
    decreases toks.len() - i, 0int,
{
    lemma_at(toks, i);
    if token_at(toks, i, TokenKind::ADD) {
        lemma_expression_sound(toks, i + 1);
        if let Ok(mid) = grammar::expression(toks.skip(i + 1)) {
            let k = place(toks, mid);
            lemma_additions_sound(toks, k);
            if let Ok(after) = grammar::additions(mid) {
                let j = place(toks, after);
                assert(cut(k) && derives_expression(toks, i + 1, k) && derives_additions(toks, k, j));
            }
        }
    }
}

/// Additions behind additions are additions.
pub proof fn lemma_additions_join(toks: Seq<Lexeme>, i: int, m: int, j: int)
    requires
        derives_additions(toks, i, m),
        derives_additions(toks, m, j),
    ensures
        derives_additions(toks, i, j),
    decreases m - i,
{
    if i < m {
        let k = choose|k: int|
            #[trigger] cut(k) && i + 1 < k <= m && derives_expression(toks, i + 1, k) && derives_additions(
                toks,
                k,
                m,
            );
        lemma_additions_join(toks, k, m, j);
        assert(cut(k) && derives_expression(toks, i + 1, k) && derives_additions(toks, k, j));
    }
}

/// An expression of the language with additions of the language behind it
/// is accepted together with them, whether the additions are taken as part
/// of the expression or not; if neither an addition nor an opening
/// parenthesis follows.
pub proof fn lemma_expression_complete(toks: Seq<Lexeme>, i: int, k: int, j: int)
    requires
        is_stream(toks),
        0 <= i <= k <= j < toks.len(),
        derives_expression(toks, i, k),
        derives_additions(toks, k, j),
        !token_at(toks, j, TokenKind::ADD),
        !token_at(toks, j, TokenKind::PARENS_L),
    ensures
        grammar::expression(toks.skip(i)) matches Ok(mid) && (mid == toks.skip(k) || mid
            == toks.skip(j)) && mid.len() < toks.skip(i).len() && accepts(
            toks,
            grammar::additions(mid),
            j,
        ),
    decreases j - i, 1int,
{
    lemma_at(toks, i);
    lemma_at(toks, j);
    if derives_function_call(toks, i, k) {
        lemma_at(toks, i + 1);
        lemma_function_call_complete(toks, i, k);
        lemma_additions_complete(toks, k, j);
    } else if derives_variable_access(toks, i, k) {
        lemma_at(toks, i + 1);
        lemma_at(toks, k);
        lemma_additions_join(toks, i + 1, k, j);
        lemma_additions_complete(toks, i + 1, j);
    } else {
        lemma_additions_complete(toks, k, j);
    }
}

/// Additions of the language are accepted, if neither an addition nor an
/// opening parenthesis follows.
pub proof fn lemma_additions_complete(toks: Seq<Lexeme>, i: int, j: int)
    requires
        is_stream(toks),
        0 <= i <= j < toks.len(),
        derives_additions(toks, i, j),
        !token_at(toks, j, TokenKind::ADD),
        !token_at(toks, j, TokenKind::PARENS_L),
    ensures
        accepts(toks, grammar::additions(toks.skip(i)), j),
    decreases j - i, 0int,
{
    lemma_at(toks, i);
    if i < j {
        let k = choose|k: int|
            #[trigger] cut(k) && i + 1 < k <= j && derives_expression(toks, i + 1, k) && derives_additions(
                toks,
                k,
                j,
            );
        lemma_expression_complete(toks, i + 1, k, j);
    }
}

} // verus!
