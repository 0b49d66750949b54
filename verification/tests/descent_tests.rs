use lang_front::error::Expected;
use lang_front::error::ParseError;
use lang_front::lexer::Lexer;
use lang_front::parser_descent::check_program;
use lang_front::parser_descent::DescentParser;
use lang_front::scan::LexError;
use lang_front::token::Token;
use lang_front::token::TokenKind;

fn parser(text: &str) -> DescentParser {
    DescentParser::new(Lexer::new(String::from(text)))
}

fn analyze(text: &str) -> Result<(), ParseError> {
    parser(text).analyze()
}

fn violation(expected: TokenKind, found: TokenKind) -> Result<(), ParseError> {
    Err(ParseError::Grammar { expected: Expected::Kind(expected), found })
}

fn in_function(body: &str) -> String {
    format!("func f() [ {body} ]")
}

#[test]
fn function_with_three_statements_is_accepted() {
    assert_eq!(
        analyze("func add(x:int32)->int32[let value:int32=35;value=value+x;return value;]"),
        Ok(())
    );
}

#[test]
fn missing_closing_bracket_fails_at_end_of_input() {
    assert_eq!(
        analyze("func add(x:int32)->int32[let value:int32=35;value=value+x;return value;"),
        violation(TokenKind::BRACKET_R, TokenKind::EOI)
    );
}

#[test]
fn program_with_spaces_and_two_functions_is_accepted() {
    let text = "\
    func add(x : int32) -> int32\
    [\
        let value : int32 = 35;\
        value = value + x;\
        return value;\
    ]\
    \
    func main()\
    [\
        let sum : int32 = 0;\
        sum = add(2);\
        print \"sum=\", sum;\
    ]";
    assert_eq!(analyze(text), Ok(()));
}

#[test]
fn empty_program_is_accepted() {
    assert_eq!(analyze(""), Ok(()));
    assert_eq!(analyze("   \n"), Ok(()));
}

#[test]
fn program_must_be_functions_only() {
    assert_eq!(analyze("let"), violation(TokenKind::EOI, TokenKind::LET));
    assert_eq!(analyze("func f() [] ;"), violation(TokenKind::EOI, TokenKind::SEMICOLON));
}

#[test]
fn empty_parameter_list_is_accepted() {
    assert_eq!(analyze("func main() []"), Ok(()));
}

#[test]
fn several_parameters_are_accepted() {
    assert_eq!(analyze("func f(a : int32, b : flt32, c : char, d : int32) []"), Ok(()));
}

#[test]
fn trailing_comma_in_parameter_list_is_rejected() {
    assert_eq!(analyze("func f(a : int32,) []"), violation(TokenKind::ID, TokenKind::PARENS_R));
}

#[test]
fn parameter_needs_a_type_name() {
    assert_eq!(
        analyze("func f(a : b) []"),
        Err(ParseError::Grammar { expected: Expected::Type, found: TokenKind::ID })
    );
    assert_eq!(
        analyze("func f(a : 1) []"),
        Err(ParseError::Grammar { expected: Expected::Type, found: TokenKind::LIT_INT32 })
    );
}

#[test]
fn return_type_is_optional_but_must_be_a_type() {
    assert_eq!(analyze("func f() -> flt32 []"), Ok(()));
    assert_eq!(
        analyze("func f() -> []"),
        Err(ParseError::Grammar { expected: Expected::Type, found: TokenKind::BRACKET_L })
    );
}

#[test]
fn words_outside_the_keyword_table_are_no_type_names() {
    assert_eq!(
        analyze("func f(a : string) []"),
        Err(ParseError::Grammar { expected: Expected::Type, found: TokenKind::ID })
    );
    assert_eq!(
        analyze("func f() -> bool []"),
        Err(ParseError::Grammar { expected: Expected::Type, found: TokenKind::ID })
    );
}

#[test]
fn function_needs_a_name_and_a_block() {
    assert_eq!(analyze("func () []"), violation(TokenKind::ID, TokenKind::PARENS_L));
    assert_eq!(analyze("func f"), violation(TokenKind::PARENS_L, TokenKind::EOI));
    assert_eq!(analyze("func f()"), violation(TokenKind::BRACKET_L, TokenKind::EOI));
    assert_eq!(analyze("func f() {}"), violation(TokenKind::BRACKET_L, TokenKind::BRACE_L));
}

#[test]
fn nested_blocks_come_before_statements() {
    assert_eq!(analyze("func f() [ [] [] let a : int32 = 1; ]"), Ok(()));
    assert_eq!(analyze("func f() [ [ [ return a; ] ] [ a = b; ] ]"), Ok(()));
    assert_eq!(
        analyze("func f() [ let a : int32 = 1; [] ]"),
        violation(TokenKind::BRACKET_R, TokenKind::BRACKET_L)
    );
}

#[test]
fn unclosed_nested_block_is_rejected() {
    assert_eq!(analyze("func f() [ [ ]"), violation(TokenKind::BRACKET_R, TokenKind::EOI));
}

#[test]
fn statements_may_come_in_any_order() {
    assert_eq!(analyze(&in_function("a = b; let a : char = \"c\"; return a; a = f();")), Ok(()));
    assert_eq!(
        analyze(&in_function("return a; print \"x\", a; let a : int32 = 1; a = b; return \"s\";")),
        Ok(())
    );
}

#[test]
fn token_that_starts_no_statement_is_rejected() {
    assert_eq!(analyze(&in_function("35;")), violation(TokenKind::BRACKET_R, TokenKind::LIT_INT32));
    assert_eq!(analyze(&in_function("if")), violation(TokenKind::BRACKET_R, TokenKind::IF));
    let mut parser = parser("35;");
    assert_eq!(
        parser.parse_statement(),
        Err(ParseError::Grammar { expected: Expected::Statement, found: TokenKind::LIT_INT32 })
    );
}

#[test]
fn variable_declaration_takes_any_literal() {
    assert_eq!(analyze(&in_function("let a : int32 = 35;")), Ok(()));
    assert_eq!(analyze(&in_function("let a : char = \"text\";")), Ok(()));
    assert_eq!(
        analyze(&in_function("let a : int32 = b;")),
        Err(ParseError::Grammar { expected: Expected::Literal, found: TokenKind::ID })
    );
    assert_eq!(
        analyze(&in_function("let a : int32 = ;")),
        Err(ParseError::Grammar { expected: Expected::Literal, found: TokenKind::SEMICOLON })
    );
}

#[test]
fn variable_declaration_needs_every_part() {
    assert_eq!(analyze(&in_function("let : int32 = 1;")), violation(TokenKind::ID, TokenKind::COLON));
    assert_eq!(analyze(&in_function("let a int32 = 1;")), violation(TokenKind::COLON, TokenKind::TYPE_INT32));
    assert_eq!(analyze(&in_function("let a : int32 1;")), violation(TokenKind::ASSIGN, TokenKind::LIT_INT32));
    assert_eq!(analyze(&in_function("let a : int32 = 1")), violation(TokenKind::SEMICOLON, TokenKind::BRACKET_R));
}

#[test]
fn print_statement_takes_any_text_and_any_identifier() {
    assert_eq!(analyze(&in_function("print \"sum=\", sum;")), Ok(()));
    assert_eq!(analyze(&in_function("print \"total: \", other;")), Ok(()));
    assert_eq!(analyze(&in_function("print sum, sum;")), violation(TokenKind::LIT_STRING, TokenKind::ID));
    assert_eq!(analyze(&in_function("print \"a\" sum;")), violation(TokenKind::COMMA, TokenKind::ID));
    assert_eq!(analyze(&in_function("print \"a\", 1;")), violation(TokenKind::ID, TokenKind::LIT_INT32));
}

#[test]
fn identifier_before_parenthesis_is_a_call() {
    assert_eq!(analyze(&in_function("a = f();")), Ok(()));
    assert_eq!(analyze(&in_function("a = f(2);")), Ok(()));
    assert_eq!(analyze(&in_function("a = f(2, x, \"s\");")), Ok(()));
    assert_eq!(analyze(&in_function("return f(x);")), Ok(()));
}

#[test]
fn call_arguments_are_separated_by_commas() {
    assert_eq!(analyze(&in_function("a = f(2 3);")), violation(TokenKind::PARENS_R, TokenKind::LIT_INT32));
    assert_eq!(
        analyze(&in_function("a = f(2,);")),
        Err(ParseError::Grammar { expected: Expected::Argument, found: TokenKind::PARENS_R })
    );
    assert_eq!(
        analyze("func f() [ a = f(2,"),
        Err(ParseError::Grammar { expected: Expected::Argument, found: TokenKind::EOI })
    );
    assert_eq!(
        analyze("func f() [ a = f("),
        Err(ParseError::Grammar { expected: Expected::Argument, found: TokenKind::EOI })
    );
}

#[test]
fn identifier_before_anything_else_is_a_variable_access() {
    assert_eq!(analyze(&in_function("a = b;")), Ok(()));
    assert_eq!(analyze(&in_function("a = b + c;")), Ok(()));
    assert_eq!(analyze(&in_function("a = b + c + d + e;")), Ok(()));
    assert_eq!(analyze(&in_function("a = b + f(1) + \"s\" + c;")), Ok(()));
}

#[test]
fn call_is_not_followed_by_an_addition() {
    assert_eq!(analyze(&in_function("a = f(1) + b;")), violation(TokenKind::SEMICOLON, TokenKind::ADD));
}

#[test]
fn string_literal_is_an_expression() {
    assert_eq!(analyze(&in_function("a = \"text\";")), Ok(()));
    assert_eq!(analyze(&in_function("a = \"text\" + b;")), violation(TokenKind::SEMICOLON, TokenKind::ADD));
}

#[test]
fn expression_must_start_with_an_identifier_or_a_string() {
    assert_eq!(
        analyze(&in_function("a = 5;")),
        Err(ParseError::Grammar { expected: Expected::Expression, found: TokenKind::LIT_INT32 })
    );
    assert_eq!(
        analyze(&in_function("a = b + ;")),
        Err(ParseError::Grammar { expected: Expected::Expression, found: TokenKind::SEMICOLON })
    );
    assert_eq!(
        analyze(&in_function("return ;")),
        Err(ParseError::Grammar { expected: Expected::Expression, found: TokenKind::SEMICOLON })
    );
}

#[test]
fn character_literal_is_not_scanned() {
    assert_eq!(
        analyze(&in_function("let a : char = 'c';")),
        Err(ParseError::Grammar { expected: Expected::Literal, found: TokenKind::ID })
    );
}

#[test]
fn lexical_error_ends_the_parse() {
    assert_eq!(
        analyze(&in_function("let a : int32 = 99999999999;")),
        Err(ParseError::Lexical(LexError::IntegerOverflow))
    );
    assert_eq!(
        analyze(&in_function("print \"open, a;")),
        Err(ParseError::Lexical(LexError::UnterminatedString))
    );
    assert_eq!(analyze("99999999999"), Err(ParseError::Lexical(LexError::IntegerOverflow)));
}

#[test]
fn grammar_violation_before_a_lexical_error_comes_first() {
    assert_eq!(analyze("func ( 99999999999"), violation(TokenKind::ID, TokenKind::PARENS_L));
}

#[test]
fn expect_consumes_a_token_of_the_kind() {
    let mut parser = parser("name : int32");
    assert_eq!(parser.expect(Token::id()), Ok(()));
    assert_eq!(parser.expect(Token::COLON), Ok(()));
    assert_eq!(parser.expect(Token::TYPE_INT32), Ok(()));
    assert_eq!(parser.expect(Token::EOI), Ok(()));
    assert_eq!(parser.expect(Token::EOI), Ok(()));
}

#[test]
fn expect_fails_without_consuming() {
    let mut parser = parser("name :");
    assert_eq!(parser.expect(Token::COLON), violation(TokenKind::COLON, TokenKind::ID));
    assert_eq!(parser.expect(Token::ID(String::from("other"))), Ok(()));
    assert_eq!(parser.expect(Token::COLON), Ok(()));
}

#[test]
fn accept_consumes_only_what_matches() {
    let mut parser = parser(", x");
    assert!(!parser.accept(Token::id()));
    assert!(parser.accept(Token::COMMA));
    assert!(!parser.accept(Token::COMMA));
    assert!(parser.accept(Token::id()));
    assert!(parser.accept(Token::EOI));
}

#[test]
fn peek_and_peek_next_consume_nothing() {
    let mut parser = parser("f ( x");
    assert!(parser.peek(Token::id()));
    assert!(!parser.peek(Token::PARENS_L));
    assert!(parser.peek_next(Token::PARENS_L));
    assert!(!parser.peek_next(Token::id()));
    assert!(parser.peek(Token::id()));
    parser.advance();
    assert!(parser.peek(Token::PARENS_L));
    assert!(parser.peek_next(Token::id()));
    parser.advance();
    assert!(parser.peek_next(Token::EOI));
    parser.advance();
    assert!(parser.peek(Token::EOI));
    assert!(parser.peek_next(Token::EOI));
}

#[test]
fn curr_is_the_token_under_the_cursor() {
    let mut parser = parser("a 7");
    assert!(parser.curr().unwrap().same(&Token::ID(String::from("a"))));
    parser.advance();
    assert!(parser.curr().unwrap().same(&Token::LIT_INT32(7)));
    parser.advance();
    assert!(parser.curr().unwrap().same(&Token::EOI));
    parser.advance();
    assert!(parser.curr().unwrap().same(&Token::EOI));
}

#[test]
fn cursor_stays_on_a_lexical_error() {
    let mut parser = parser("\"open");
    assert_eq!(parser.curr(), Err(LexError::UnterminatedString));
    assert!(!parser.peek(Token::EOI));
    assert!(!parser.accept(Token::lit_string()));
    parser.advance();
    assert_eq!(parser.curr(), Err(LexError::UnterminatedString));
    assert_eq!(parser.expect(Token::EOI), Err(ParseError::Lexical(LexError::UnterminatedString)));
}

#[test]
fn parser_starts_where_the_lexer_stands() {
    let mut lexer = Lexer::new(String::from("] func f() []"));
    lexer.advance().unwrap();
    let mut parser = DescentParser::new(lexer);
    assert_eq!(parser.analyze(), Ok(()));
}

#[test]
fn type_and_literal_classes() {
    let parser = parser("");
    for token in [Token::TYPE_INT32, Token::TYPE_FLT32, Token::TYPE_CHAR, Token::TYPE_STRING, Token::TYPE_BOOL] {
        assert!(parser.is_type(&token));
        assert!(!parser.is_initial_value(&token));
    }
    for token in [Token::lit_int32(), Token::lit_flt32(), Token::lit_char(), Token::lit_string()] {
        assert!(parser.is_initial_value(&token));
        assert!(!parser.is_type(&token));
    }
    assert!(!parser.is_type(&Token::id()));
    assert!(!parser.is_initial_value(&Token::id()));
}

#[test]
fn single_rules_leave_the_rest_of_the_stream() {
    let mut parser = parser("(a : int32, b : char) -> x = y + z; f(1, 2) [ ] \"s\"");
    assert_eq!(parser.parse_parameter_list(), Ok(()));
    assert_eq!(parser.expect(Token::ARROW_R), Ok(()));
    assert_eq!(parser.parse_assignment(), Ok(()));
    assert_eq!(parser.parse_function_call(), Ok(()));
    assert_eq!(parser.parse_block_nest(), Ok(()));
    assert_eq!(parser.parse_expression(), Ok(()));
    assert!(parser.peek(Token::EOI));
}

#[test]
fn more_single_rules() {
    let mut parser = parser("a : char int32 7 ) x + y return z; let v : flt32 = 7; print \"p\", q; func g() [] a = b; c = d; ]");
    assert_eq!(parser.parse_parameter(), Ok(()));
    assert_eq!(parser.parse_type(), Ok(()));
    assert_eq!(parser.parse_function_arguments(), Ok(()));
    assert_eq!(parser.parse_variable_access(), Ok(()));
    assert_eq!(parser.parse_return_statement(), Ok(()));
    assert_eq!(parser.parse_variable_declaration(), Ok(()));
    assert_eq!(parser.parse_print_statement(), Ok(()));
    assert_eq!(parser.parse_func(), Ok(()));
    assert_eq!(parser.parse_block_list(), Ok(()));
    assert!(parser.peek(Token::BRACKET_R));
    assert_eq!(
        parser.parse_variable_initial_value(),
        Err(ParseError::Grammar { expected: Expected::Literal, found: TokenKind::BRACKET_R })
    );
}

#[test]
fn check_program_accepts_a_program() {
    assert_eq!(
        check_program(String::from(
            "func add(x:int32)->int32[let value:int32=35;value=value+x;return value;]"
        )),
        Ok(())
    );
    assert_eq!(check_program(String::new()), Ok(()));
}

#[test]
fn check_program_reports_the_first_error() {
    assert_eq!(
        check_program(String::from("func f() [ a = ; b = ]")),
        Err(ParseError::Grammar { expected: Expected::Expression, found: TokenKind::SEMICOLON })
    );
    assert_eq!(
        check_program(String::from("func f() [ a = \"open ]")),
        Err(ParseError::Lexical(LexError::UnterminatedString))
    );
}

#[test]
fn addition_expression_takes_the_sum_and_stops_at_the_semicolon() {
    let mut parser = parser("value+x;");
    assert_eq!(parser.parse_addition_expression(), Ok(()));
    assert!(parser.peek(Token::SEMICOLON));
    assert!(parser.peek_next(Token::EOI));
}

#[test]
fn addition_expression_of_a_single_operand() {
    let mut parser = parser("value ; 35 ; f(1) ;");
    assert_eq!(parser.parse_addition_expression(), Ok(()));
    assert_eq!(parser.expect(Token::SEMICOLON), Ok(()));
    assert_eq!(parser.parse_addition_expression(), Ok(()));
    assert_eq!(parser.expect(Token::SEMICOLON), Ok(()));
    assert_eq!(parser.parse_addition_expression(), Ok(()));
    assert_eq!(parser.expect(Token::SEMICOLON), Ok(()));
    assert!(parser.peek(Token::EOI));
}

#[test]
fn addition_expression_takes_literals_variables_and_calls() {
    let mut parser = parser("add(2) + 5 ; 5 + 3 + f() + 7 + x + y ;");
    assert_eq!(parser.parse_addition_expression(), Ok(()));
    assert_eq!(parser.expect(Token::SEMICOLON), Ok(()));
    assert_eq!(parser.parse_addition_expression(), Ok(()));
    assert_eq!(parser.expect(Token::SEMICOLON), Ok(()));
    assert!(parser.peek(Token::EOI));
}

#[test]
fn variable_in_an_addition_expression_takes_expressions_only() {
    let mut parser = parser("x + 7 ;");
    assert_eq!(
        parser.parse_addition_expression(),
        Err(ParseError::Grammar { expected: Expected::Expression, found: TokenKind::LIT_INT32 })
    );
}

#[test]
fn addition_expression_passes_over_a_place_without_operand() {
    let mut parser = parser("; + ; + + x ; \"s\"");
    assert_eq!(parser.parse_addition_expression(), Ok(()));
    assert_eq!(parser.expect(Token::SEMICOLON), Ok(()));
    assert_eq!(parser.parse_addition_expression(), Ok(()));
    assert_eq!(parser.expect(Token::SEMICOLON), Ok(()));
    assert_eq!(parser.parse_addition_expression(), Ok(()));
    assert_eq!(parser.expect(Token::SEMICOLON), Ok(()));
    assert_eq!(parser.parse_addition_expression(), Ok(()));
    assert!(parser.peek(Token::lit_string()));
}

#[test]
fn addition_expression_fails_where_its_operand_fails() {
    let mut parser = parser("x + f(1 2) ;");
    assert_eq!(parser.parse_addition_expression(), violation(TokenKind::PARENS_R, TokenKind::LIT_INT32));
    let mut parser = self::parser("x + y + ;");
    assert_eq!(
        parser.parse_addition_expression(),
        Err(ParseError::Grammar { expected: Expected::Expression, found: TokenKind::SEMICOLON })
    );
}

#[test]
fn additions_follow_an_operand_that_was_taken() {
    let mut parser = parser("+ a + f() + \"s\" ;");
    assert_eq!(parser.parse_additions(), Ok(()));
    assert!(parser.peek(Token::SEMICOLON));
    assert_eq!(parser.parse_additions(), Ok(()));
    assert!(parser.peek(Token::SEMICOLON));
    let mut parser = self::parser("value + x ;");
    assert_eq!(parser.parse_additions(), Ok(()));
    assert!(parser.peek(Token::id()));
    let mut parser = self::parser("+ ;");
    assert_eq!(
        parser.parse_additions(),
        Err(ParseError::Grammar { expected: Expected::Expression, found: TokenKind::SEMICOLON })
    );
}
