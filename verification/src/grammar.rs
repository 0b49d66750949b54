//! The grammar of declarations and statements, as a function from a stream
//! of lexemes to what is left of it after a rule, or to the first error.
//!
//! ```text
//! program        := { function }
//! function       := FUNC id parameter-list [ ARROW type ] block
//! parameter-list := LPAREN [ parameter { COMMA parameter } ] RPAREN
//! parameter      := id COLON type
//! block          := LBRACKET { block } { statement } RBRACKET
//! statement      := variable-decl | assignment | print-stmt | return-stmt
//! variable-decl  := LET id COLON type ASSIGN literal SEMICOLON
//! assignment     := id ASSIGN expression SEMICOLON
//! print-stmt     := PRINT string-literal COMMA id SEMICOLON
//! return-stmt    := RETURN expression SEMICOLON
//! expression     := function-call | variable-access | string-literal
//! variable-access:= id { ADD expression }
//! function-call  := id LPAREN [ argument { COMMA argument } ] RPAREN
//! ```
//!
//! Beside the rules of a program stands one more, for sums of integer
//! literals, variables and calls:
//!
//! ```text
//! addition-expression := [ operand ] { ADD [ operand ] }
//! operand             := integer-literal | variable-access | function-call
//! ```
//!
//! Every rule is predictive: one token of lookahead decides, and a second
//! one tells a call from a variable access.

use vstd::prelude::*;
use crate::error::Expected;
use crate::error::ParseError;
use crate::scan::is_final;
use crate::scan::plain;
use crate::scan::Lexeme;
use crate::token::TokenKind;

verus! {

/// What a rule makes of a stream: the lexemes that are left, or the error.
pub type Parsed = Result<Seq<Lexeme>, ParseError>;

/// The lexeme under the cursor. Past the end of a stream stands end-of-input.
pub open spec fn head(toks: Seq<Lexeme>) -> Lexeme {
    if toks.len() > 0 {
        toks[0]
    } else {
        Ok(plain(TokenKind::EOI))
    }
}

/// The stream after its first lexeme. End-of-input and an error are never
/// left behind: a stream that starts with one of them stays as it is.
pub open spec fn rest(toks: Seq<Lexeme>) -> Seq<Lexeme> {
    if toks.len() == 0 || is_final(toks[0]) {
        toks
    } else {
        toks.skip(1)
    }
}

/// Whether the lexeme under the cursor is a token of the given kind.
pub open spec fn head_is(toks: Seq<Lexeme>, kind: TokenKind) -> bool {
    head(toks) matches Ok(token) && token.kind == kind
}

/// The type tokens. The lexer writes three of them, for the words `int32`,
/// `flt32` and `char`; the grammar takes all five.
pub open spec fn is_type(kind: TokenKind) -> bool {
    kind == TokenKind::TYPE_INT32 || kind == TokenKind::TYPE_FLT32 || kind == TokenKind::TYPE_CHAR
        || kind == TokenKind::TYPE_STRING || kind == TokenKind::TYPE_BOOL
}

/// The literals: integer, float, character and string.
pub open spec fn is_literal(kind: TokenKind) -> bool {
    kind == TokenKind::LIT_INT32 || kind == TokenKind::LIT_FLT32 || kind == TokenKind::LIT_CHAR
        || kind == TokenKind::LIT_STRING
}

/// What can stand as the argument of a call: a single token of any kind
/// but a closing parenthesis and end-of-input.
pub open spec fn is_argument(kind: TokenKind) -> bool {
    kind != TokenKind::PARENS_R && kind != TokenKind::EOI
}

/// The tokens that start a statement: `let`, an identifier, `print`, `return`.
pub open spec fn starts_statement(kind: TokenKind) -> bool {
    kind == TokenKind::LET || kind == TokenKind::ID || kind == TokenKind::PRINT || kind
        == TokenKind::RETURN
}

/// The tokens that start an expression: an identifier or a string literal.
pub open spec fn starts_expression(kind: TokenKind) -> bool {
    kind == TokenKind::ID || kind == TokenKind::LIT_STRING
}

/// Whether a token of kind `kind` is what `what` asks for.
pub open spec fn fits(what: Expected, kind: TokenKind) -> bool {
    match what {
        Expected::Kind(wanted) => kind == wanted,
        Expected::Type => is_type(kind),
        Expected::Literal => is_literal(kind),
        Expected::Argument => is_argument(kind),
        Expected::Statement => starts_statement(kind),
        Expected::Expression => starts_expression(kind),
    }
}

/// Whether the lexeme under the cursor is a token that fits `what`.
pub open spec fn head_fits(toks: Seq<Lexeme>, what: Expected) -> bool {
    head(toks) matches Ok(token) && fits(what, token.kind)
}

/// The error for a stream whose head is not what was asked for: the lexical
/// error that stands there, or else a grammar violation that names what was
/// expected and the kind that was found.
pub open spec fn failure(toks: Seq<Lexeme>, what: Expected) -> ParseError {
    match head(toks) {
        Ok(token) => ParseError::Grammar { expected: what, found: token.kind },
        Err(error) => ParseError::Lexical(error),
    }
}

/// Requires and consumes one token that fits `what`.
pub open spec fn expect(toks: Seq<Lexeme>, what: Expected) -> Parsed {
    if head_fits(toks, what) {
        Ok(rest(toks))
    } else {
        Err(failure(toks, what))
    }
}

/// Requires and consumes one token of the given kind.
pub open spec fn token(toks: Seq<Lexeme>, kind: TokenKind) -> Parsed {
    expect(toks, Expected::Kind(kind))
}

/// `parameter := id COLON type`
pub open spec fn parameter(toks: Seq<Lexeme>) -> Parsed {
    match token(toks, TokenKind::ID) {
        Err(e) => Err(e),
        Ok(a) => match token(a, TokenKind::COLON) {
            Err(e) => Err(e),
            Ok(b) => expect(b, Expected::Type),
        },
    }
}

/// `{ COMMA parameter }`
pub open spec fn more_parameters(toks: Seq<Lexeme>) -> Parsed
    decreases toks.len(),
{
    if head_is(toks, TokenKind::COMMA) {
        match parameter(rest(toks)) {
            Err(e) => Err(e),
            Ok(after) => more_parameters(after),
        }
    } else {
        Ok(toks)
    }
}

/// `parameter-list := LPAREN [ parameter { COMMA parameter } ] RPAREN`
pub open spec fn parameter_list(toks: Seq<Lexeme>) -> Parsed {
    match token(toks, TokenKind::PARENS_L) {
        Err(e) => Err(e),
        Ok(a) => if head_is(a, TokenKind::PARENS_R) {
            Ok(rest(a))
        } else {
            match parameter(a) {
                Err(e) => Err(e),
                Ok(b) => match more_parameters(b) {
                    Err(e) => Err(e),
                    Ok(c) => token(c, TokenKind::PARENS_R),
                },
            }
        },
    }
}

/// `{ COMMA argument }`
pub open spec fn more_arguments(toks: Seq<Lexeme>) -> Parsed
    decreases toks.len(),
{
    if head_is(toks, TokenKind::COMMA) {
        match expect(rest(toks), Expected::Argument) {
            Err(e) => Err(e),
            Ok(after) => more_arguments(after),
        }
    } else {
        Ok(toks)
    }
}

/// `[ argument { COMMA argument } ] RPAREN`, where an argument is a single
/// token of any kind but a closing parenthesis and end-of-input.
pub open spec fn function_arguments(toks: Seq<Lexeme>) -> Parsed {
    if head_is(toks, TokenKind::PARENS_R) {
        Ok(rest(toks))
    } else {
        match expect(toks, Expected::Argument) {
            Err(e) => Err(e),
            Ok(a) => match more_arguments(a) {
                Err(e) => Err(e),
                Ok(b) => token(b, TokenKind::PARENS_R),
            },
        }
    }
}

/// `function-call := id LPAREN [ argument { COMMA argument } ] RPAREN`
pub open spec fn function_call(toks: Seq<Lexeme>) -> Parsed {
    match token(toks, TokenKind::ID) {
        Err(e) => Err(e),
        Ok(a) => match token(a, TokenKind::PARENS_L) {
            Err(e) => Err(e),
            Ok(b) => function_arguments(b),
        },
    }
}

/// `expression := function-call | variable-access | string-literal`
///
/// An identifier directly before an opening parenthesis starts a call, any
/// other identifier a variable access.
pub open spec fn expression(toks: Seq<Lexeme>) -> Parsed
    decreases toks.len(), 2int,
{
    if head_is(toks, TokenKind::ID) {
        if head_is(rest(toks), TokenKind::PARENS_L) {
            function_call(toks)
        } else {
            variable_access(toks)
        }
    } else if head_is(toks, TokenKind::LIT_STRING) {
        Ok(rest(toks))
    } else {
        Err(failure(toks, Expected::Expression))
    }
}

/// `variable-access := id { ADD expression }`
pub open spec fn variable_access(toks: Seq<Lexeme>) -> Parsed
    decreases toks.len(), 1int,
{
    match token(toks, TokenKind::ID) {
        Err(e) => Err(e),
        Ok(a) => additions(a),
    }
}

/// `{ ADD expression }`
///
/// An expression always consumes (see [`lemma_expression_consumes`]), so the
/// test on the lengths never fails; it is what makes the definition well-founded.
pub open spec fn additions(toks: Seq<Lexeme>) -> Parsed
    decreases toks.len(), 0int,
{
    if head_is(toks, TokenKind::ADD) {
        match expression(rest(toks)) {
            Err(e) => Err(e),
            Ok(after) => if after.len() < toks.len() {
                additions(after)
            } else {
                Ok(after)
            },
        }
    } else {
        Ok(toks)
    }
}

/// `[ operand ]`, where an operand is an integer literal or an expression
/// that starts with an identifier. Where neither stands, nothing is taken.
pub open spec fn operand(toks: Seq<Lexeme>) -> Parsed {
    if head_is(toks, TokenKind::LIT_INT32) {
        Ok(rest(toks))
    } else if head_is(toks, TokenKind::ID) {
        expression(toks)
    } else {
        Ok(toks)
    }
}

/// `{ ADD [ operand ] }`
pub open spec fn more_operands(toks: Seq<Lexeme>) -> Parsed
    decreases toks.len(),
{
    if head_is(toks, TokenKind::ADD) {
        match operand(rest(toks)) {
            Err(e) => Err(e),
            Ok(after) => {
                proof {
                    lemma_operand_keeps(rest(toks));
                }
                more_operands(after)
            },
        }
    } else {
        Ok(toks)
    }
}

/// `addition-expression := [ operand ] { ADD [ operand ] }`
///
/// A sum of integer literals, variables and calls. It is a rule of its
/// own: no other rule of the grammar refers to it.
pub open spec fn addition_expression(toks: Seq<Lexeme>) -> Parsed {
    match operand(toks) {
        Err(e) => Err(e),
        Ok(a) => more_operands(a),
    }
}

/// `variable-decl := LET id COLON type ASSIGN literal SEMICOLON`
pub open spec fn variable_declaration(toks: Seq<Lexeme>) -> Parsed {
    match token(toks, TokenKind::LET) {
        Err(e) => Err(e),
        Ok(a) => match token(a, TokenKind::ID) {
            Err(e) => Err(e),
            Ok(b) => match token(b, TokenKind::COLON) {
                Err(e) => Err(e),
                Ok(c) => match expect(c, Expected::Type) {
                    Err(e) => Err(e),
                    Ok(d) => match token(d, TokenKind::ASSIGN) {
                        Err(e) => Err(e),
                        Ok(f) => match expect(f, Expected::Literal) {
                            Err(e) => Err(e),
                            Ok(g) => token(g, TokenKind::SEMICOLON),
                        },
                    },
                },
            },
        },
    }
}

/// `assignment := id ASSIGN expression SEMICOLON`
pub open spec fn assignment(toks: Seq<Lexeme>) -> Parsed {
    match token(toks, TokenKind::ID) {
        Err(e) => Err(e),
        Ok(a) => match token(a, TokenKind::ASSIGN) {
            Err(e) => Err(e),
            Ok(b) => match expression(b) {
                Err(e) => Err(e),
                Ok(c) => token(c, TokenKind::SEMICOLON),
            },
        },
    }
}

/// `print-stmt := PRINT string-literal COMMA id SEMICOLON`
pub open spec fn print_statement(toks: Seq<Lexeme>) -> Parsed {
    match token(toks, TokenKind::PRINT) {
        Err(e) => Err(e),
        Ok(a) => match token(a, TokenKind::LIT_STRING) {
            Err(e) => Err(e),
            Ok(b) => match token(b, TokenKind::COMMA) {
                Err(e) => Err(e),
                Ok(c) => match token(c, TokenKind::ID) {
                    Err(e) => Err(e),
                    Ok(d) => token(d, TokenKind::SEMICOLON),
                },
            },
        },
    }
}

/// `return-stmt := RETURN expression SEMICOLON`
pub open spec fn return_statement(toks: Seq<Lexeme>) -> Parsed {
    match token(toks, TokenKind::RETURN) {
        Err(e) => Err(e),
        Ok(a) => match expression(a) {
            Err(e) => Err(e),
            Ok(b) => token(b, TokenKind::SEMICOLON),
        },
    }
}

/// `statement := variable-decl | assignment | print-stmt | return-stmt`
///
/// A token that starts none of the four is a grammar violation.
pub open spec fn statement(toks: Seq<Lexeme>) -> Parsed {
    if head_is(toks, TokenKind::LET) {
        variable_declaration(toks)
    } else if head_is(toks, TokenKind::ID) {
        assignment(toks)
    } else if head_is(toks, TokenKind::PRINT) {
        print_statement(toks)
    } else if head_is(toks, TokenKind::RETURN) {
        return_statement(toks)
    } else {
        Err(failure(toks, Expected::Statement))
    }
}

/// `{ statement }`
pub open spec fn statements(toks: Seq<Lexeme>) -> Parsed
    decreases toks.len(),
{
    if head_fits(toks, Expected::Statement) {
        match statement(toks) {
            Err(e) => Err(e),
            Ok(after) => {
                proof {
                    lemma_statement_consumes(toks);
                }
                statements(after)
            },
        }
    } else {
        Ok(toks)
    }
}

/// `block := LBRACKET { block } { statement } RBRACKET`
///
/// Nested blocks come before the statements of a block.
pub open spec fn block(toks: Seq<Lexeme>) -> Parsed
    decreases toks.len(), 0int,
{
    match token(toks, TokenKind::BRACKET_L) {
        Err(e) => Err(e),
        Ok(a) => match blocks(a) {
            Err(e) => Err(e),
            Ok(b) => match statements(b) {
                Err(e) => Err(e),
                Ok(c) => token(c, TokenKind::BRACKET_R),
            },
        },
    }
}

/// `{ block }`
///
/// A block always consumes (see [`lemma_block_consumes`]), so the test on
/// the lengths never fails; it is what makes the definition well-founded.
pub open spec fn blocks(toks: Seq<Lexeme>) -> Parsed
    decreases toks.len(), 1int,
{
    if head_is(toks, TokenKind::BRACKET_L) {
        match block(toks) {
            Err(e) => Err(e),
            Ok(after) => if after.len() < toks.len() {
                blocks(after)
            } else {
                Ok(after)
            },
        }
    } else {
        Ok(toks)
    }
}

/// `[ ARROW type ]`
pub open spec fn return_type(toks: Seq<Lexeme>) -> Parsed {
    if head_is(toks, TokenKind::ARROW_R) {
        expect(rest(toks), Expected::Type)
    } else {
        Ok(toks)
    }
}

/// `function := FUNC id parameter-list [ ARROW type ] block`
pub open spec fn function(toks: Seq<Lexeme>) -> Parsed {
    match token(toks, TokenKind::FUNC) {
        Err(e) => Err(e),
        Ok(a) => match token(a, TokenKind::ID) {
            Err(e) => Err(e),
            Ok(b) => match parameter_list(b) {
                Err(e) => Err(e),
                Ok(c) => match return_type(c) {
                    Err(e) => Err(e),
                    Ok(d) => block(d),
                },
            },
        },
    }
}

/// `program := { function }`, and then the end of the input.
pub open spec fn program(toks: Seq<Lexeme>) -> Parsed
    decreases toks.len(),
{
    if head_is(toks, TokenKind::FUNC) {
        match function(toks) {
            Err(e) => Err(e),
            Ok(after) => {
                proof {
                    lemma_function_consumes(toks);
                }
                program(after)
            },
        }
    } else {
        token(toks, TokenKind::EOI)
    }
}

/// Whether a rule that turns `toks` into `outcome` has consumed something.
pub open spec fn consumes(toks: Seq<Lexeme>, outcome: Parsed) -> bool {
    outcome matches Ok(after) ==> after.len() < toks.len()
}

/// Whether a rule that turns `toks` into `outcome` has given nothing back.
pub open spec fn keeps(toks: Seq<Lexeme>, outcome: Parsed) -> bool {
    outcome matches Ok(after) ==> after.len() <= toks.len()
}

/// Further parameters give nothing back.
pub proof fn lemma_more_parameters_keeps(toks: Seq<Lexeme>)
    ensures
        keeps(toks, more_parameters(toks)),
    decreases toks.len(),
{
    if head_is(toks, TokenKind::COMMA) {
        if let Ok(after) = parameter(rest(toks)) {
            lemma_more_parameters_keeps(after);
        }
    }
}

/// Further arguments give nothing back.
pub proof fn lemma_more_arguments_keeps(toks: Seq<Lexeme>)
    ensures
        keeps(toks, more_arguments(toks)),
    decreases toks.len(),
{
    if head_is(toks, TokenKind::COMMA) {
        if let Ok(after) = expect(rest(toks), Expected::Argument) {
            lemma_more_arguments_keeps(after);
        }
    }
}

/// A parameter list that is accepted takes at least one token.
pub proof fn lemma_parameter_list_consumes(toks: Seq<Lexeme>)
    ensures
        consumes(toks, parameter_list(toks)),
{
    if let Ok(a) = token(toks, TokenKind::PARENS_L) {
        if !head_is(a, TokenKind::PARENS_R) {
            if let Ok(b) = parameter(a) {
                lemma_more_parameters_keeps(b);
            }
        }
    }
}

/// A call that is accepted takes at least one token.
pub proof fn lemma_function_call_consumes(toks: Seq<Lexeme>)
    ensures
        consumes(toks, function_call(toks)),
{
    if let Ok(a) = token(toks, TokenKind::ID) {
        if let Ok(b) = token(a, TokenKind::PARENS_L) {
            if !head_is(b, TokenKind::PARENS_R) {
                if let Ok(c) = expect(b, Expected::Argument) {
                    lemma_more_arguments_keeps(c);
                }
            }
        }
    }
}

/// An expression that is accepted takes at least one token.
pub proof fn lemma_expression_consumes(toks: Seq<Lexeme>)
    ensures
        consumes(toks, expression(toks)),
    decreases toks.len(), 2int,
{
    if head_is(toks, TokenKind::ID) {
        if head_is(rest(toks), TokenKind::PARENS_L) {
            lemma_function_call_consumes(toks);
        } else {
            lemma_additions_keeps(rest(toks));
        }
    }
}

/// Additions give nothing back.
pub proof fn lemma_additions_keeps(toks: Seq<Lexeme>)
    ensures
        keeps(toks, additions(toks)),
    decreases toks.len(), 0int,
{
    if head_is(toks, TokenKind::ADD) {
        lemma_expression_consumes(rest(toks));
        if let Ok(after) = expression(rest(toks)) {
            lemma_additions_keeps(after);
        }
    }
}

/// Where additions end, no further addition stands.
pub proof fn lemma_additions_stop(toks: Seq<Lexeme>)
    ensures
        additions(toks) matches Ok(after) ==> !head_is(after, TokenKind::ADD),
    decreases toks.len(),
{
    if head_is(toks, TokenKind::ADD) {
        lemma_expression_consumes(rest(toks));
        if let Ok(after) = expression(rest(toks)) {
            if after.len() < toks.len() {
                lemma_additions_stop(after);
            }
        }
    }
}

/// An operand gives nothing back.
pub proof fn lemma_operand_keeps(toks: Seq<Lexeme>)
    ensures
        keeps(toks, operand(toks)),
{
    lemma_expression_consumes(toks);
}

/// An addition expression that starts with a variable is the access to
/// that variable, with all the additions behind it.
pub proof fn lemma_addition_expression_of_a_variable(toks: Seq<Lexeme>)
    requires
        head_is(toks, TokenKind::ID),
        !head_is(rest(toks), TokenKind::PARENS_L),
    ensures
        addition_expression(toks) == variable_access(toks),
{
    lemma_additions_stop(rest(toks));
}

/// A statement that is accepted takes at least one token.
pub proof fn lemma_statement_consumes(toks: Seq<Lexeme>)
    ensures
        consumes(toks, statement(toks)),
{
    if head_is(toks, TokenKind::ID) {
        if let Ok(a) = token(toks, TokenKind::ID) {
            if let Ok(b) = token(a, TokenKind::ASSIGN) {
                lemma_expression_consumes(b);
            }
        }
    } else if head_is(toks, TokenKind::RETURN) {
        lemma_expression_consumes(rest(toks));
    }
}

/// Statements give nothing back.
pub proof fn lemma_statements_keeps(toks: Seq<Lexeme>)
    ensures
        keeps(toks, statements(toks)),
    decreases toks.len(),
{
    if head_fits(toks, Expected::Statement) {
        lemma_statement_consumes(toks);
        if let Ok(after) = statement(toks) {
            lemma_statements_keeps(after);
        }
    }
}

/// A block that is accepted takes at least one token.
pub proof fn lemma_block_consumes(toks: Seq<Lexeme>)
    ensures
        consumes(toks, block(toks)),
    decreases toks.len(), 0int,
{
    if let Ok(a) = token(toks, TokenKind::BRACKET_L) {
        lemma_blocks_keeps(a);
        if let Ok(b) = blocks(a) {
            lemma_statements_keeps(b);
        }
    }
}

/// Nested blocks give nothing back.
pub proof fn lemma_blocks_keeps(toks: Seq<Lexeme>)
    ensures
        keeps(toks, blocks(toks)),
    decreases toks.len(), 1int,
{
    if head_is(toks, TokenKind::BRACKET_L) {
        lemma_block_consumes(toks);
        if let Ok(after) = block(toks) {
            lemma_blocks_keeps(after);
        }
    }
}

/// A function that is accepted takes at least one token.
pub proof fn lemma_function_consumes(toks: Seq<Lexeme>)
    ensures
        consumes(toks, function(toks)),
{
    if let Ok(a) = token(toks, TokenKind::FUNC) {
        if let Ok(b) = token(a, TokenKind::ID) {
            lemma_parameter_list_consumes(b);
            if let Ok(c) = parameter_list(b) {
                if let Ok(d) = return_type(c) {
                    lemma_block_consumes(d);
                }
            }
        }
    }
}

} // verus!
