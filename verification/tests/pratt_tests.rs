use lang_front::error::ParseError;
use lang_front::lexer::Lexer;
use lang_front::parse_tree::NodeType;
use lang_front::parse_tree::ParseTree;
use lang_front::parser_pratt::node_type_for;
use lang_front::parser_pratt::parse_expression;
use lang_front::parser_pratt::PrattParser;
use lang_front::scan::LexError;
use lang_front::token::Token;
use lang_front::token::TokenKind;

fn parser(text: &str) -> PrattParser {
    PrattParser::new(Lexer::new(String::from(text)))
}

fn tree_text(text: &str) -> String {
    parser(text).analyze().expect("an expression").print()
}

fn error_of(text: &str) -> ParseError {
    match parser(text).analyze() {
        Ok(tree) => panic!("accepted: {}", tree.print()),
        Err(error) => error,
    }
}

fn is_identifier(tree: &ParseTree, name: &str) -> bool {
    tree.token().same(&Token::ID(String::from(name))) && tree.child_count() == 0
}

#[test]
fn addition_associates_to_the_left() {
    let tree = parser("b + c + d").analyze().unwrap();
    assert!(tree.token().same(&Token::ADD));
    assert_eq!(tree.child_count(), 2);
    let left = tree.child(0).unwrap();
    let right = tree.child(1).unwrap();
    assert!(left.token().same(&Token::ADD));
    assert_eq!(left.child_count(), 2);
    assert!(is_identifier(left.child(0).unwrap(), "b"));
    assert!(is_identifier(left.child(1).unwrap(), "c"));
    assert!(is_identifier(right, "d"));
    assert!(tree.child(2).is_none());
}

#[test]
fn assignment_associates_to_the_right() {
    let tree = parser("e = f = g").analyze().unwrap();
    assert!(tree.token().same(&Token::ASSIGN));
    assert_eq!(tree.child_count(), 2);
    let left = tree.child(0).unwrap();
    let right = tree.child(1).unwrap();
    assert!(is_identifier(left, "e"));
    assert!(right.token().same(&Token::ASSIGN));
    assert_eq!(right.child_count(), 2);
    assert!(is_identifier(right.child(0).unwrap(), "f"));
    assert!(is_identifier(right.child(1).unwrap(), "g"));
}

#[test]
fn tree_of_additions_is_printed_with_indentation() {
    assert_eq!(
        tree_text("b + c + d"),
        "ADD\n  ADD\n    ID(\"b\")\n    ID(\"c\")\n  ID(\"d\")\n"
    );
}

#[test]
fn tree_of_assignments_is_printed_with_indentation() {
    assert_eq!(
        tree_text("e = f = g"),
        "ASSIGN\n  ID(\"e\")\n  ASSIGN\n    ID(\"f\")\n    ID(\"g\")\n"
    );
}

#[test]
fn single_identifier_is_a_leaf() {
    let tree = parser("x").analyze().unwrap();
    assert!(is_identifier(&tree, "x"));
    assert_eq!(tree.node_type(), NodeType::Identifier);
    assert_eq!(tree.print(), "ID(\"x\")\n");
}

#[test]
fn addition_binds_as_strongly_as_assignment_on_the_left() {
    assert_eq!(
        tree_text("a = b + c"),
        "ASSIGN\n  ID(\"a\")\n  ADD\n    ID(\"b\")\n    ID(\"c\")\n"
    );
    assert_eq!(
        tree_text("a + b = c"),
        "ASSIGN\n  ADD\n    ID(\"a\")\n    ID(\"b\")\n  ID(\"c\")\n"
    );
}

#[test]
fn mixed_chain_of_operators() {
    let expected = "\
ASSIGN
  ID(\"a\")
  ASSIGN
    ADD
      ADD
        ID(\"b\")
        ID(\"c\")
      ID(\"d\")
    ASSIGN
      ID(\"e\")
      ASSIGN
        ID(\"f\")
        ID(\"g\")
";
    assert_eq!(tree_text("a = b + c + d = e = f = g"), expected);
}

#[test]
fn node_types_follow_the_operator() {
    let tree = parser("a = b + c").analyze().unwrap();
    assert_eq!(tree.node_type(), NodeType::AssignmentStatement);
    assert_eq!(tree.child(0).unwrap().node_type(), NodeType::Identifier);
    assert_eq!(tree.child(1).unwrap().node_type(), NodeType::AdditionExpression);
    assert_eq!(node_type_for(TokenKind::ASSIGN), NodeType::AssignmentStatement);
    assert_eq!(node_type_for(TokenKind::ADD), NodeType::AdditionExpression);
    assert_eq!(node_type_for(TokenKind::ID), NodeType::Identifier);
}

#[test]
fn expression_cannot_start_with_an_operator_or_the_end() {
    assert_eq!(error_of("+ a"), ParseError::MissingPrefix(TokenKind::ADD));
    assert_eq!(error_of("= a"), ParseError::MissingPrefix(TokenKind::ASSIGN));
    assert_eq!(error_of(""), ParseError::MissingPrefix(TokenKind::EOI));
    assert_eq!(error_of("a +"), ParseError::MissingPrefix(TokenKind::EOI));
    assert_eq!(error_of("a = = b"), ParseError::MissingPrefix(TokenKind::ASSIGN));
    assert_eq!(error_of("7"), ParseError::MissingPrefix(TokenKind::LIT_INT32));
    assert_eq!(error_of("a + 7"), ParseError::MissingPrefix(TokenKind::LIT_INT32));
}

#[test]
fn identifier_behind_an_operand_has_no_infix_meaning() {
    assert_eq!(error_of("a b"), ParseError::MissingInfix(TokenKind::ID));
    assert_eq!(error_of("a + b c"), ParseError::MissingInfix(TokenKind::ID));
    assert_eq!(error_of("a = b c"), ParseError::MissingInfix(TokenKind::ID));
}

#[test]
fn token_without_binding_powers_is_an_internal_error() {
    assert_eq!(error_of("a )"), ParseError::MissingBindingPower(TokenKind::PARENS_R));
    assert_eq!(error_of("a + b ;"), ParseError::MissingBindingPower(TokenKind::SEMICOLON));
    assert_eq!(error_of("a 7"), ParseError::MissingBindingPower(TokenKind::LIT_INT32));
    assert_eq!(error_of("a * b"), ParseError::MissingBindingPower(TokenKind::MUL));
}

#[test]
fn lexical_error_ends_the_expression() {
    assert_eq!(error_of("99999999999"), ParseError::Lexical(LexError::IntegerOverflow));
    assert_eq!(error_of("a + \"open"), ParseError::Lexical(LexError::UnterminatedString));
    assert_eq!(error_of("a 99999999999"), ParseError::Lexical(LexError::IntegerOverflow));
}

#[test]
fn driver_stops_at_an_operator_that_binds_too_weakly() {
    let mut parser = parser("a + b + c");
    let tree = parser.pratt_driver(2).unwrap();
    assert!(is_identifier(&tree, "a"));
    assert!(parser.current().unwrap().same(&Token::ADD));
    let mut parser = self::parser("a = b = c");
    let tree = parser.pratt_driver(1).unwrap();
    assert_eq!(tree.print(), "ASSIGN\n  ID(\"a\")\n  ASSIGN\n    ID(\"b\")\n    ID(\"c\")\n");
}

#[test]
fn driver_with_a_negative_power_runs_into_the_end() {
    let mut parser = parser("a");
    assert_eq!(parser.pratt_driver(-1).err(), Some(ParseError::MissingInfix(TokenKind::EOI)));
}

#[test]
fn analyze_leaves_end_of_input_in_the_stream() {
    let mut parser = parser("a + b");
    parser.analyze().unwrap();
    assert!(parser.current().unwrap().same(&Token::EOI));
    parser.advance();
    assert!(parser.current().unwrap().same(&Token::EOI));
}

#[test]
fn prefix_function_makes_a_leaf_of_an_identifier_only() {
    let mut parser = parser("");
    let leaf = parser.func_prefix(Token::ID(String::from("n"))).unwrap();
    assert!(is_identifier(&leaf, "n"));
    assert_eq!(parser.func_prefix(Token::ADD).err(), Some(ParseError::MissingPrefix(TokenKind::ADD)));
    assert_eq!(parser.func_prefix(Token::ASSIGN).err(), Some(ParseError::MissingPrefix(TokenKind::ASSIGN)));
    assert_eq!(parser.func_prefix(Token::EOI).err(), Some(ParseError::MissingPrefix(TokenKind::EOI)));
    assert_eq!(parser.func_prefix(Token::COMMA).err(), Some(ParseError::MissingPrefix(TokenKind::COMMA)));
}

#[test]
fn infix_function_parses_the_right_operand() {
    let mut parser = parser("b + c");
    let left = ParseTree::new(Token::ID(String::from("a")), NodeType::Identifier);
    let tree = parser.func_infix(Token::ASSIGN, left).unwrap();
    assert_eq!(tree.print(), "ASSIGN\n  ID(\"a\")\n  ADD\n    ID(\"b\")\n    ID(\"c\")\n");
    let mut parser = self::parser("b + c");
    let left = ParseTree::new(Token::ID(String::from("a")), NodeType::Identifier);
    let tree = parser.func_infix(Token::ADD, left).unwrap();
    assert_eq!(tree.print(), "ADD\n  ID(\"a\")\n  ID(\"b\")\n");
    assert!(parser.current().unwrap().same(&Token::ADD));
    let left = ParseTree::new(Token::ID(String::from("a")), NodeType::Identifier);
    assert_eq!(
        parser.func_infix(Token::lit_int32(), left).err(),
        Some(ParseError::MissingInfix(TokenKind::LIT_INT32))
    );
}

#[test]
fn binding_powers_of_the_table() {
    assert_eq!(Token::binding_powers(&Token::id()), Ok((3, 3)));
    assert_eq!(Token::binding_powers(&Token::ADD), Ok((2, 3)));
    assert_eq!(Token::binding_powers(&Token::ASSIGN), Ok((2, 1)));
    assert_eq!(Token::binding_powers(&Token::EOI), Ok((0, 0)));
    assert_eq!(
        Token::binding_powers(&Token::MUL),
        Err(ParseError::MissingBindingPower(TokenKind::MUL))
    );
    assert_eq!(Token::ADD.left_bp(), Ok(2));
    assert_eq!(Token::ADD.right_bp(), Ok(3));
    assert_eq!(Token::ASSIGN.left_bp(), Ok(2));
    assert_eq!(Token::ASSIGN.right_bp(), Ok(1));
    assert_eq!(Token::SUB.left_bp(), Err(ParseError::MissingBindingPower(TokenKind::SUB)));
    assert_eq!(Token::SUB.right_bp(), Err(ParseError::MissingBindingPower(TokenKind::SUB)));
}

#[test]
fn parse_expression_returns_the_tree_of_a_text() {
    let tree = parse_expression(String::from("total = first + second")).unwrap();
    assert_eq!(
        tree.print(),
        "ASSIGN\n  ID(\"total\")\n  ADD\n    ID(\"first\")\n    ID(\"second\")\n"
    );
    assert_eq!(
        parse_expression(String::from("total = ")).err(),
        Some(ParseError::MissingPrefix(TokenKind::EOI))
    );
}

#[test]
fn long_chain_of_additions_leans_to_the_left() {
    let mut text = String::from("x0");
    for i in 1..200 {
        text.push_str(&format!(" + x{i}"));
    }
    let tree = parse_expression(text).unwrap();
    let mut node = &tree;
    for i in (1..200).rev() {
        assert!(node.token().same(&Token::ADD));
        assert!(is_identifier(node.child(1).unwrap(), &format!("x{i}")));
        node = node.child(0).unwrap();
    }
    assert!(is_identifier(node, "x0"));
}

#[test]
fn long_chain_of_assignments_leans_to_the_right() {
    let mut text = String::from("x0");
    for i in 1..200 {
        text.push_str(&format!(" = x{i}"));
    }
    let tree = parse_expression(text).unwrap();
    let mut node = &tree;
    for i in 0..199 {
        assert!(node.token().same(&Token::ASSIGN));
        assert!(is_identifier(node.child(0).unwrap(), &format!("x{i}")));
        node = node.child(1).unwrap();
    }
    assert!(is_identifier(node, "x199"));
}
