//! The recursive-descent parser: it walks the grammar of declarations and
//! statements with one token of lookahead, two where a call has to be told
//! from a variable access, and stops at the first error.

use vstd::prelude::*;
use crate::grammar;
use crate::cursor::outcome;
use crate::cursor::TokenCursor;
use crate::error::Expected;
use crate::error::ParseError;
use crate::grammar::head;
use crate::grammar::head_is;
use crate::grammar::rest;
use crate::language::is_program;
use crate::agreement::lemma_program_is_the_language;
use crate::lexer::lexeme_of;
use crate::lexer::Lexer;
use crate::scan::lemma_stream_shape;
use crate::scan::lex_from;
use crate::scan::LexError;
use crate::scan::Lexeme;
use crate::token::Token;
use crate::token::TokenKind;

verus! {

/// A parser that checks a token stream against the grammar of
/// [`crate::grammar`] and builds nothing.
pub struct DescentParser {
    cursor: TokenCursor,
}

impl DescentParser {
    /// The lexemes that are still to be consumed, the current one first.
    pub closed spec fn remaining(&self) -> Seq<Lexeme> {
        self.cursor.remaining()
    }

    /// A parser on the first lexeme that `lexer` has not yet produced.
    pub fn new(lexer: Lexer) -> (parser: DescentParser)
        ensures
            parser.remaining() == lex_from(lexer@.source, lexer@.cursor),
    {
        DescentParser { cursor: TokenCursor::new(lexer) }
    }

    /// Consumes the whole token stream. Succeeds exactly if the stream is a
    /// program of the language, and then stands on end-of-input; fails with
    /// the first lexical error or grammar violation if it is not.
    pub fn analyze(&mut self) -> (result: Result<(), ParseError>)
        ensures
            outcome(result, final(self).remaining()) == grammar::program(old(self).remaining()),
            result is Ok <==> is_program(old(self).remaining()),
            result is Ok ==> head_is(final(self).remaining(), TokenKind::EOI),
    {
        proof {
            self.cursor.lemma_remaining_is_a_stream();
            lemma_program_is_the_language(self.remaining());
        }
        loop
            invariant
                grammar::program(self.remaining()) == grammar::program(old(self).remaining()),
                grammar::program(old(self).remaining()) is Ok <==> is_program(
                    old(self).remaining(),
                ),
            ensures
                !head_is(self.remaining(), TokenKind::FUNC),
                grammar::program(self.remaining()) == grammar::program(old(self).remaining()),
            decreases self.remaining().len(),
        {
            if !self.peek(Token::FUNC) {
                break;
            }
            proof {
                grammar::lemma_function_consumes(self.remaining());
            }
            match self.parse_func() {
                Err(error) => {
                    return Err(error);
                },
                Ok(_) => {},
            }
        }
        self.expect(Token::EOI)
    }

    /// `function := FUNC id parameter-list [ ARROW type ] block`
    pub fn parse_func(&mut self) -> (result: Result<(), ParseError>)
        ensures
            outcome(result, final(self).remaining()) == grammar::function(old(self).remaining()),
    {
        self.expect(Token::FUNC)?;
        self.expect(Token::id())?;
        self.parse_parameter_list()?;
        if self.accept(Token::ARROW_R) {
            self.parse_type()?;
        }
        self.parse_block_nest()
    }

    /// `parameter-list := LPAREN [ parameter { COMMA parameter } ] RPAREN`
    pub fn parse_parameter_list(&mut self) -> (result: Result<(), ParseError>)
        ensures
            outcome(result, final(self).remaining()) == grammar::parameter_list(
                old(self).remaining(),
            ),
    {
        self.expect(Token::PARENS_L)?;
        if self.accept(Token::PARENS_R) {
            return Ok(());
        }
        self.parse_parameter()?;
        let ghost first = self.remaining();
        loop
            invariant
                grammar::more_parameters(self.remaining()) == grammar::more_parameters(first),
                grammar::parameter_list(old(self).remaining()) == (match grammar::more_parameters(
                    first,
                ) {
                    Err(e) => Err(e),
                    Ok(c) => grammar::token(c, TokenKind::PARENS_R),
                }),
            ensures
                grammar::more_parameters(first) == Ok::<Seq<Lexeme>, ParseError>(self.remaining()),
                grammar::parameter_list(old(self).remaining()) == grammar::token(
                    self.remaining(),
                    TokenKind::PARENS_R,
                ),
            decreases self.remaining().len(),
        {
            if !self.accept(Token::COMMA) {
                break;
            }
            match self.parse_parameter() {
                Err(error) => {
                    return Err(error);
                },
                Ok(_) => {},
            }
        }
        self.expect(Token::PARENS_R)
    }

    /// Whether `token` is one of the type names.
    pub fn is_type(&self, token: &Token) -> (yes: bool)
        ensures
            yes == grammar::is_type(token.spec_kind()),
    {
        match token {
            Token::TYPE_INT32
            | Token::TYPE_FLT32
            | Token::TYPE_CHAR
            | Token::TYPE_STRING
            | Token::TYPE_BOOL => true,
            _ => false,
        }
    }

    /// Requires a type name and consumes it.
    pub fn parse_type(&mut self) -> (result: Result<(), ParseError>)
        ensures
            outcome(result, final(self).remaining()) == grammar::expect(
                old(self).remaining(),
                Expected::Type,
            ),
    {
        self.cursor.expect(Expected::Type)
    }

    /// `parameter := id COLON type`
    pub fn parse_parameter(&mut self) -> (result: Result<(), ParseError>)
        ensures
            outcome(result, final(self).remaining()) == grammar::parameter(old(self).remaining()),
            result is Ok ==> final(self).remaining().len() < old(self).remaining().len(),
    {
        self.expect(Token::id())?;
        self.expect(Token::COLON)?;
        self.parse_type()
    }

    /// `block := LBRACKET { block } { statement } RBRACKET`
    pub fn parse_block_nest(&mut self) -> (result: Result<(), ParseError>)
        ensures
            outcome(result, final(self).remaining()) == grammar::block(old(self).remaining()),
        decreases old(self).remaining().len(), 0int,
    {
        self.expect(Token::BRACKET_L)?;
        let ghost inside = self.remaining();
        loop
            invariant
                inside.len() < old(self).remaining().len(),
                self.remaining().len() <= inside.len(),
                grammar::blocks(self.remaining()) == grammar::blocks(inside),
                grammar::block(old(self).remaining()) == (match grammar::blocks(inside) {
                    Err(e) => Err(e),
                    Ok(b) => match grammar::statements(b) {
                        Err(e) => Err(e),
                        Ok(c) => grammar::token(c, TokenKind::BRACKET_R),
                    },
                }),
            ensures
                grammar::block(old(self).remaining()) == (match grammar::statements(
                    self.remaining(),
                ) {
                    Err(e) => Err(e),
                    Ok(c) => grammar::token(c, TokenKind::BRACKET_R),
                }),
            decreases self.remaining().len(),
        {
            if !self.peek(Token::BRACKET_L) {
                break;
            }
            proof {
                grammar::lemma_block_consumes(self.remaining());
            }
            match self.parse_block_nest() {
                Err(error) => {
                    return Err(error);
                },
                Ok(_) => {},
            }
        }
        self.parse_block_list()?;
        self.expect(Token::BRACKET_R)
    }

    /// `return-stmt := RETURN expression SEMICOLON`
    pub fn parse_return_statement(&mut self) -> (result: Result<(), ParseError>)
        ensures
            outcome(result, final(self).remaining()) == grammar::return_statement(
                old(self).remaining(),
            ),
    {
        self.expect(Token::RETURN)?;
        self.parse_expression()?;
        self.expect(Token::SEMICOLON)
    }

    /// Requires a literal, the initial value of a variable, and consumes it.
    pub fn parse_variable_initial_value(&mut self) -> (result: Result<(), ParseError>)
        ensures
            outcome(result, final(self).remaining()) == grammar::expect(
                old(self).remaining(),
                Expected::Literal,
            ),
    {
        self.cursor.expect(Expected::Literal)
    }

    /// `[ argument { COMMA argument } ] RPAREN`
    pub fn parse_function_arguments(&mut self) -> (result: Result<(), ParseError>)
        ensures
            outcome(result, final(self).remaining()) == grammar::function_arguments(
                old(self).remaining(),
            ),
    {
        if self.accept(Token::PARENS_R) {
            return Ok(());
        }
        self.cursor.expect(Expected::Argument)?;
        let ghost first = self.remaining();
        loop
            invariant
                grammar::more_arguments(self.remaining()) == grammar::more_arguments(first),
                grammar::function_arguments(old(self).remaining()) == (
                match grammar::more_arguments(first) {
                    Err(e) => Err(e),
                    Ok(b) => grammar::token(b, TokenKind::PARENS_R),
                }),
            ensures
                grammar::function_arguments(old(self).remaining()) == grammar::token(
                    self.remaining(),
                    TokenKind::PARENS_R,
                ),
            decreases self.remaining().len(),
        {
            if !self.accept(Token::COMMA) {
                break;
            }
            match self.cursor.expect(Expected::Argument) {
                Err(error) => {
                    return Err(error);
                },
                Ok(_) => {},
            }
        }
        self.expect(Token::PARENS_R)
    }

    /// `variable-decl := LET id COLON type ASSIGN literal SEMICOLON`
    pub fn parse_variable_declaration(&mut self) -> (result: Result<(), ParseError>)
        ensures
            outcome(result, final(self).remaining()) == grammar::variable_declaration(
                old(self).remaining(),
            ),
    {
        self.expect(Token::LET)?;
        self.expect(Token::id())?;
        self.expect(Token::COLON)?;
        self.parse_type()?;
        self.expect(Token::ASSIGN)?;
        self.parse_variable_initial_value()?;
        self.expect(Token::SEMICOLON)
    }

    /// `expression := function-call | variable-access | string-literal`
    pub fn parse_expression(&mut self) -> (result: Result<(), ParseError>)
        ensures
            outcome(result, final(self).remaining()) == grammar::expression(old(self).remaining()),
        decreases old(self).remaining().len(), 2int,
    {
        if self.peek(Token::id()) {
            if self.peek_next(Token::PARENS_L) {
                self.parse_function_call()
            } else {
                self.parse_variable_access()
            }
        } else if self.peek(Token::lit_string()) {
            self.expect(Token::lit_string())
        } else {
            Err(self.cursor.failure(Expected::Expression))
        }
    }

    /// `variable-access := id { ADD expression }`
    pub fn parse_variable_access(&mut self) -> (result: Result<(), ParseError>)
        ensures
            outcome(result, final(self).remaining()) == grammar::variable_access(
                old(self).remaining(),
            ),
        decreases old(self).remaining().len(), 1int,
    {
        self.expect(Token::id())?;
        self.parse_additions()
    }

    /// `{ ADD expression }`: the additions behind a variable.
    pub fn parse_additions(&mut self) -> (result: Result<(), ParseError>)
        ensures
            outcome(result, final(self).remaining()) == grammar::additions(old(self).remaining()),
        decreases old(self).remaining().len(), 0int,
    {
        loop
            invariant
                self.remaining().len() <= old(self).remaining().len(),
                grammar::additions(self.remaining()) == grammar::additions(old(self).remaining()),
            ensures
                grammar::additions(old(self).remaining()) == Ok::<Seq<Lexeme>, ParseError>(
                    self.remaining(),
                ),
            decreases self.remaining().len(),
        {
            if !self.accept(Token::ADD) {
                break;
            }
            proof {
                grammar::lemma_expression_consumes(self.remaining());
            }
            match self.parse_expression() {
                Err(error) => {
                    return Err(error);
                },
                Ok(_) => {},
            }
        }
        Ok(())
    }

    /// `[ operand ]`: takes an integer literal, or an expression that
    /// starts with an identifier, and nothing where neither stands.
    fn parse_operand(&mut self) -> (result: Result<(), ParseError>)
        ensures
            outcome(result, final(self).remaining()) == grammar::operand(old(self).remaining()),
    {
        if self.peek(Token::lit_int32()) {
            self.expect(Token::lit_int32())
        } else if self.peek(Token::id()) {
            self.parse_expression()
        } else {
            Ok(())
        }
    }

    /// `addition-expression := [ operand ] { ADD [ operand ] }`
    ///
    /// On `value + x ;` it takes the three tokens of the sum and stops on
    /// the semicolon. Where it starts with a variable, it is the access to
    /// that variable.
    pub fn parse_addition_expression(&mut self) -> (result: Result<(), ParseError>)
        ensures
            outcome(result, final(self).remaining()) == grammar::addition_expression(
                old(self).remaining(),
            ),
            head_is(old(self).remaining(), TokenKind::ID) && !head_is(
                rest(old(self).remaining()),
                TokenKind::PARENS_L,
            ) ==> outcome(result, final(self).remaining()) == grammar::variable_access(
                old(self).remaining(),
            ),
    {
        proof {
            if head_is(self.remaining(), TokenKind::ID) && !head_is(
                rest(self.remaining()),
                TokenKind::PARENS_L,
            ) {
                grammar::lemma_addition_expression_of_a_variable(self.remaining());
            }
        }
        self.parse_operand()?;
        let ghost first = self.remaining();
        loop
            invariant
                grammar::more_operands(self.remaining()) == grammar::more_operands(first),
                grammar::addition_expression(old(self).remaining()) == grammar::more_operands(
                    first,
                ),
                head_is(old(self).remaining(), TokenKind::ID) && !head_is(
                    rest(old(self).remaining()),
                    TokenKind::PARENS_L,
                ) ==> grammar::addition_expression(old(self).remaining())
                    == grammar::variable_access(old(self).remaining()),
            ensures
                grammar::addition_expression(old(self).remaining()) == Ok::<
                    Seq<Lexeme>,
                    ParseError,
                >(self.remaining()),
            decreases self.remaining().len(),
        {
            if !self.accept(Token::ADD) {
                break;
            }
            proof {
                grammar::lemma_operand_keeps(self.remaining());
            }
            match self.parse_operand() {
                Err(error) => {
                    return Err(error);
                },
                Ok(_) => {},
            }
        }
        Ok(())
    }

    /// `function-call := id LPAREN [ argument { COMMA argument } ] RPAREN`
    pub fn parse_function_call(&mut self) -> (result: Result<(), ParseError>)
        ensures
            outcome(result, final(self).remaining()) == grammar::function_call(
                old(self).remaining(),
            ),
    {
        self.expect(Token::id())?;
        self.expect(Token::PARENS_L)?;
        self.parse_function_arguments()
    }

    /// `assignment := id ASSIGN expression SEMICOLON`
    pub fn parse_assignment(&mut self) -> (result: Result<(), ParseError>)
        ensures
            outcome(result, final(self).remaining()) == grammar::assignment(old(self).remaining()),
    {
        self.expect(Token::id())?;
        self.expect(Token::ASSIGN)?;
        self.parse_expression()?;
        self.expect(Token::SEMICOLON)
    }

    /// `statement := variable-decl | assignment | print-stmt | return-stmt`
    pub fn parse_statement(&mut self) -> (result: Result<(), ParseError>)
        ensures
            outcome(result, final(self).remaining()) == grammar::statement(old(self).remaining()),
    {
        if self.peek(Token::LET) {
            self.parse_variable_declaration()
        } else if self.peek(Token::id()) {
            self.parse_assignment()
        } else if self.peek(Token::PRINT) {
            self.parse_print_statement()
        } else if self.peek(Token::RETURN) {
            self.parse_return_statement()
        } else {
            Err(self.cursor.failure(Expected::Statement))
        }
    }

    /// `print-stmt := PRINT string-literal COMMA id SEMICOLON`
    pub fn parse_print_statement(&mut self) -> (result: Result<(), ParseError>)
        ensures
            outcome(result, final(self).remaining()) == grammar::print_statement(
                old(self).remaining(),
            ),
    {
        self.expect(Token::PRINT)?;
        self.expect(Token::lit_string())?;
        self.expect(Token::COMMA)?;
        self.expect(Token::id())?;
        self.expect(Token::SEMICOLON)
    }

    /// `{ statement }`
    pub fn parse_block_list(&mut self) -> (result: Result<(), ParseError>)
        ensures
            outcome(result, final(self).remaining()) == grammar::statements(old(self).remaining()),
    {
        loop
            invariant
                grammar::statements(self.remaining()) == grammar::statements(
                    old(self).remaining(),
                ),
            ensures
                grammar::statements(old(self).remaining()) == Ok::<Seq<Lexeme>, ParseError>(
                    self.remaining(),
                ),
            decreases self.remaining().len(),
        {
            if !self.cursor.looking_at(Expected::Statement) {
                break;
            }
            proof {
                grammar::lemma_statement_consumes(self.remaining());
            }
            match self.parse_statement() {
                Err(error) => {
                    return Err(error);
                },
                Ok(_) => {},
            }
        }
        Ok(())
    }

    /// The lexeme under the cursor.
    pub fn curr(&self) -> (lexeme: Result<Token, LexError>)
        ensures
            lexeme_of(lexeme) == head(self.remaining()),
    {
        self.cursor.current()
    }

    /// Moves to the next lexeme, unless the cursor is on the last one.
    pub fn advance(&mut self)
        ensures
            final(self).remaining() == rest(old(self).remaining()),
    {
        self.cursor.advance()
    }

    /// Requires a token of the kind of `symbol` under the cursor and
    /// consumes it. Fails without consuming if another one stands there.
    pub fn expect(&mut self, symbol: Token) -> (result: Result<(), ParseError>)
        ensures
            outcome(result, final(self).remaining()) == grammar::token(
                old(self).remaining(),
                symbol.spec_kind(),
            ),
            result is Err ==> final(self).remaining() == old(self).remaining(),
    {
        self.cursor.expect(Expected::Kind(symbol.kind()))
    }

    /// Consumes the token under the cursor if it is of the kind of `symbol`,
    /// and says whether it was.
    pub fn accept(&mut self, symbol: Token) -> (yes: bool)
        ensures
            yes == head_is(old(self).remaining(), symbol.spec_kind()),
            final(self).remaining() == if yes {
                rest(old(self).remaining())
            } else {
                old(self).remaining()
            },
    {
        self.cursor.accept(Expected::Kind(symbol.kind()))
    }

    /// Whether the token under the cursor is of the kind of `symbol`.
    pub fn peek(&self, symbol: Token) -> (yes: bool)
        ensures
            yes == head_is(self.remaining(), symbol.spec_kind()),
    {
        self.cursor.looking_at(Expected::Kind(symbol.kind()))
    }

    /// Whether the token after the one under the cursor is of the kind of
    /// `symbol`.
    pub fn peek_next(&self, symbol: Token) -> (yes: bool)
        ensures
            yes == head_is(rest(self.remaining()), symbol.spec_kind()),
    {
        self.cursor.next_is(symbol.kind())
    }

    /// Whether `token` is a literal, which can be the initial value of a variable.
    pub fn is_initial_value(&self, token: &Token) -> (yes: bool)
        ensures
            yes == grammar::is_literal(token.spec_kind()),
    {
        match token {
            Token::LIT_INT32(_) | Token::LIT_FLT32(_) | Token::LIT_CHAR(_) | Token::LIT_STRING(_) => true,
            _ => false,
        }
    }
}

/// Checks a whole source text against the grammar. Succeeds exactly if the
/// tokens of the text are a program of the language, and fails with the
/// first lexical error or grammar violation if they are not.
pub fn check_program(input: String) -> (result: Result<(), ParseError>)
    ensures
        result is Ok <==> is_program(lex_from(input@, 0)),
        result matches Err(error) ==> grammar::program(lex_from(input@, 0)) == Err::<
            Seq<Lexeme>,
            ParseError,
        >(error),
{
    proof {
        lemma_stream_shape(input@, 0);
        lemma_program_is_the_language(lex_from(input@, 0));
    }
    let mut parser = DescentParser::new(Lexer::new(input));
    parser.analyze()
}

} // verus!
