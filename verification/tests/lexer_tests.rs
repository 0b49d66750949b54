use lang_front::lexer::Lexer;
use lang_front::scan::LexError;
use lang_front::token::Token;
use lang_front::token::TokenKind;

fn lexer(text: &str) -> Lexer {
    Lexer::new(String::from(text))
}

fn kinds(text: &str) -> Vec<TokenKind> {
    let mut lexer = lexer(text);
    let tokens = lexer.collect_tokens().expect("no lexical error");
    tokens.iter().map(|token| token.kind()).collect()
}

#[test]
fn punctuation_is_one_token_each() {
    let table = [
        ("(", Token::PARENS_L),
        (")", Token::PARENS_R),
        ("[", Token::BRACKET_L),
        ("]", Token::BRACKET_R),
        ("{", Token::BRACE_L),
        ("}", Token::BRACE_R),
        (".", Token::POINT),
        (",", Token::COMMA),
        (":", Token::COLON),
        (";", Token::SEMICOLON),
        (">", Token::GT),
        ("<", Token::LT),
        ("+", Token::ADD),
        ("*", Token::MUL),
        ("/", Token::DIV),
        ("=", Token::ASSIGN),
    ];
    for (text, expected) in table {
        let mut lexer = lexer(text);
        let token = lexer.advance().unwrap();
        assert!(token.same(&expected), "{text} gave {token:?}");
        assert!(lexer.advance().unwrap().same(&Token::EOI));
    }
}

#[test]
fn punctuation_advances_by_one_character() {
    let mut lexer = lexer(";;x");
    assert!(lexer.advance().unwrap().same(&Token::SEMICOLON));
    assert!(lexer.curr().same(&Token::SEMICOLON));
    assert!(lexer.advance().unwrap().same(&Token::SEMICOLON));
    assert!(lexer.advance().unwrap().same(&Token::ID(String::from("x"))));
    assert!(lexer.advance().unwrap().same(&Token::EOI));
}

#[test]
fn integer_literals_carry_their_value() {
    for (text, value) in [("0", 0), ("7", 7), ("35", 35), ("007", 7), ("2147483647", i32::MAX)] {
        let mut lexer = lexer(text);
        let token = lexer.advance().unwrap();
        assert!(token.same(&Token::LIT_INT32(value)), "{text} gave {token:?}");
        assert!(lexer.advance().unwrap().same(&Token::EOI));
    }
}

#[test]
fn integer_literal_ends_at_the_first_other_character() {
    let mut lexer = lexer("12;34 x");
    assert!(lexer.advance().unwrap().same(&Token::LIT_INT32(12)));
    assert!(lexer.advance().unwrap().same(&Token::SEMICOLON));
    assert!(lexer.advance().unwrap().same(&Token::LIT_INT32(34)));
    assert!(lexer.advance().unwrap().same(&Token::ID(String::from("x"))));
}

#[test]
fn integer_one_past_the_maximum_is_rejected() {
    let mut lexer = lexer("2147483648");
    assert_eq!(lexer.advance(), Err(LexError::IntegerOverflow));
}

#[test]
fn integer_one_digit_longer_than_the_maximum_is_rejected() {
    for text in ["21474836470", "21474836471", "99999999999", "10000000000"] {
        let mut lexer = lexer(text);
        assert_eq!(lexer.advance(), Err(LexError::IntegerOverflow), "{text}");
    }
}

#[test]
fn long_integer_with_leading_zeros_keeps_its_value() {
    let mut lexer = lexer("00000000000000000042");
    assert!(lexer.advance().unwrap().same(&Token::LIT_INT32(42)));
}

#[test]
fn lexer_goes_on_behind_an_overflowing_literal() {
    let mut lexer = lexer("99999999999;");
    assert_eq!(lexer.advance(), Err(LexError::IntegerOverflow));
    assert!(lexer.advance().unwrap().same(&Token::SEMICOLON));
}

#[test]
fn words_that_are_no_keywords_are_identifiers() {
    for text in ["x", "value", "Func", "LET", "int", "int320", "a1b2", "returns", "iff", "Z9", "string", "bool"] {
        let mut lexer = lexer(text);
        let token = lexer.advance().unwrap();
        assert!(token.same(&Token::ID(String::from(text))), "{text} gave {token:?}");
        assert!(lexer.advance().unwrap().same(&Token::EOI));
    }
}

#[test]
fn keywords_and_type_names_are_their_own_tokens() {
    let table = [
        ("func", Token::FUNC),
        ("let", Token::LET),
        ("if", Token::IF),
        ("then", Token::THEN),
        ("else", Token::ELSE),
        ("while", Token::WHILE),
        ("print", Token::PRINT),
        ("return", Token::RETURN),
        ("int32", Token::TYPE_INT32),
        ("flt32", Token::TYPE_FLT32),
        ("char", Token::TYPE_CHAR),
    ];
    for (text, expected) in table {
        let mut lexer = lexer(text);
        let token = lexer.advance().unwrap();
        assert!(token.same(&expected), "{text} gave {token:?}");
        assert!(lexer.advance().unwrap().same(&Token::EOI));
    }
}

#[test]
fn identifier_leaves_its_terminator_for_the_next_call() {
    let mut lexer = lexer("abc)");
    assert!(lexer.advance().unwrap().same(&Token::ID(String::from("abc"))));
    assert!(lexer.advance().unwrap().same(&Token::PARENS_R));
}

#[test]
fn digits_before_letters_are_a_number_and_a_word() {
    let mut lexer = lexer("12ab");
    assert!(lexer.advance().unwrap().same(&Token::LIT_INT32(12)));
    assert!(lexer.advance().unwrap().same(&Token::ID(String::from("ab"))));
}

#[test]
fn dash_before_greater_is_one_arrow() {
    let mut lexer = lexer("->x");
    assert!(lexer.advance().unwrap().same(&Token::ARROW_R));
    assert!(lexer.advance().unwrap().same(&Token::ID(String::from("x"))));
    assert!(lexer.advance().unwrap().same(&Token::EOI));
}

#[test]
fn dash_before_anything_else_is_one_subtraction() {
    let mut lexer = lexer("-x");
    assert!(lexer.advance().unwrap().same(&Token::SUB));
    assert!(lexer.advance().unwrap().same(&Token::ID(String::from("x"))));
    let mut lexer = self::lexer("- >");
    assert!(lexer.advance().unwrap().same(&Token::SUB));
    assert!(lexer.advance().unwrap().same(&Token::GT));
    let mut lexer = self::lexer("--");
    assert!(lexer.advance().unwrap().same(&Token::SUB));
    assert!(lexer.advance().unwrap().same(&Token::SUB));
    assert!(lexer.advance().unwrap().same(&Token::EOI));
}

#[test]
fn dash_at_the_end_is_a_subtraction() {
    let mut lexer = lexer("a-");
    assert!(lexer.advance().unwrap().same(&Token::ID(String::from("a"))));
    assert!(lexer.advance().unwrap().same(&Token::SUB));
    assert!(lexer.advance().unwrap().same(&Token::EOI));
}

#[test]
fn string_literal_holds_what_stands_between_the_quotes() {
    let mut lexer = lexer("\"sum= 1+2\";");
    assert!(lexer.advance().unwrap().same(&Token::LIT_STRING(String::from("sum= 1+2"))));
    assert!(lexer.advance().unwrap().same(&Token::SEMICOLON));
}

#[test]
fn empty_string_literal() {
    let mut lexer = lexer("\"\"");
    assert!(lexer.advance().unwrap().same(&Token::LIT_STRING(String::new())));
    assert!(lexer.advance().unwrap().same(&Token::EOI));
}

#[test]
fn unterminated_string_is_an_error() {
    let mut lexer = lexer("x \"abc");
    assert!(lexer.advance().unwrap().same(&Token::ID(String::from("x"))));
    assert_eq!(lexer.advance(), Err(LexError::UnterminatedString));
    assert!(lexer.advance().unwrap().same(&Token::EOI));
}

#[test]
fn white_space_and_unknown_characters_are_skipped() {
    assert_eq!(
        kinds("  a \t\n # ? b\r\n"),
        vec![TokenKind::ID, TokenKind::ID, TokenKind::EOI]
    );
}

#[test]
fn characters_outside_ascii_are_skipped() {
    let mut lexer = lexer("é x → y");
    assert!(lexer.advance().unwrap().same(&Token::ID(String::from("x"))));
    assert!(lexer.advance().unwrap().same(&Token::ID(String::from("y"))));
    assert!(lexer.advance().unwrap().same(&Token::EOI));
}

#[test]
fn characters_outside_ascii_stay_in_a_string_literal() {
    let mut lexer = lexer("\"é→\"");
    assert!(lexer.advance().unwrap().same(&Token::LIT_STRING(String::from("é→"))));
}

#[test]
fn empty_input_is_end_of_input() {
    let mut lexer = lexer("");
    assert!(lexer.advance().unwrap().same(&Token::EOI));
    assert!(lexer.curr().same(&Token::EOI));
}

#[test]
fn end_of_input_repeats() {
    let mut lexer = lexer("a  ");
    assert!(lexer.advance().unwrap().same(&Token::ID(String::from("a"))));
    for _ in 0..5 {
        assert!(lexer.advance().unwrap().same(&Token::EOI));
        assert!(lexer.curr().same(&Token::EOI));
        assert!(lexer.peek_next().unwrap().same(&Token::EOI));
    }
}

#[test]
fn current_token_is_the_last_one_produced() {
    let mut lexer = lexer("a b");
    assert!(lexer.curr().same(&Token::EOI));
    lexer.advance().unwrap();
    assert!(lexer.curr().same(&Token::ID(String::from("a"))));
    assert!(lexer.curr().same(&Token::ID(String::from("a"))));
    lexer.advance().unwrap();
    assert!(lexer.curr().same(&Token::EOI));
}

#[test]
fn current_token_stays_when_a_literal_is_rejected() {
    let mut lexer = lexer("a 99999999999 b");
    lexer.advance().unwrap();
    assert_eq!(lexer.advance(), Err(LexError::IntegerOverflow));
    assert!(lexer.curr().same(&Token::ID(String::from("a"))));
}

#[test]
fn peek_next_consumes_nothing() {
    let mut lexer = lexer("a + b");
    assert!(lexer.peek_next().unwrap().same(&Token::ID(String::from("a"))));
    assert!(lexer.peek_next().unwrap().same(&Token::ID(String::from("a"))));
    assert!(lexer.advance().unwrap().same(&Token::ID(String::from("a"))));
    assert!(lexer.peek_next().unwrap().same(&Token::ADD));
    assert!(lexer.curr().same(&Token::ID(String::from("a"))));
    assert!(lexer.advance().unwrap().same(&Token::ADD));
}

#[test]
fn peek_next_reports_the_error_ahead() {
    let lexer = lexer("\"open");
    assert_eq!(lexer.peek_next(), Err(LexError::UnterminatedString));
}

#[test]
fn set_input_starts_over() {
    let mut lexer = lexer("a b c");
    lexer.advance().unwrap();
    lexer.advance().unwrap();
    lexer.set_input(String::from("x y"));
    assert!(lexer.curr().same(&Token::EOI));
    assert!(lexer.advance().unwrap().same(&Token::ID(String::from("x"))));
    assert!(lexer.advance().unwrap().same(&Token::ID(String::from("y"))));
    assert!(lexer.advance().unwrap().same(&Token::EOI));
}

#[test]
fn collect_tokens_ends_with_end_of_input() {
    assert_eq!(
        kinds("func add(x : int32) -> int32"),
        vec![
            TokenKind::FUNC,
            TokenKind::ID,
            TokenKind::PARENS_L,
            TokenKind::ID,
            TokenKind::COLON,
            TokenKind::TYPE_INT32,
            TokenKind::PARENS_R,
            TokenKind::ARROW_R,
            TokenKind::TYPE_INT32,
            TokenKind::EOI,
        ]
    );
}

#[test]
fn collect_tokens_starts_at_the_cursor() {
    let mut lexer = lexer("a b c");
    lexer.advance().unwrap();
    let tokens = lexer.collect_tokens().unwrap();
    assert_eq!(tokens.len(), 3);
    assert!(tokens[0].same(&Token::ID(String::from("b"))));
    assert!(tokens[1].same(&Token::ID(String::from("c"))));
    assert!(tokens[2].same(&Token::EOI));
    assert!(lexer.advance().unwrap().same(&Token::EOI));
}

#[test]
fn collect_tokens_stops_at_the_first_error() {
    let mut lexer = lexer("a 99999999999 \"open");
    assert_eq!(lexer.collect_tokens(), Err(LexError::IntegerOverflow));
    assert_eq!(lexer.collect_tokens(), Err(LexError::UnterminatedString));
    let tokens = lexer.collect_tokens().unwrap();
    assert_eq!(tokens.len(), 1);
}

#[test]
fn statement_is_scanned_without_spaces() {
    assert_eq!(
        kinds("let value:int32=35;value=value+x;"),
        vec![
            TokenKind::LET,
            TokenKind::ID,
            TokenKind::COLON,
            TokenKind::TYPE_INT32,
            TokenKind::ASSIGN,
            TokenKind::LIT_INT32,
            TokenKind::SEMICOLON,
            TokenKind::ID,
            TokenKind::ASSIGN,
            TokenKind::ID,
            TokenKind::ADD,
            TokenKind::ID,
            TokenKind::SEMICOLON,
            TokenKind::EOI,
        ]
    );
}
