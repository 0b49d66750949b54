//! The operator-precedence parser: it parses one expression into a tree,
//! and takes the precedence and associativity of every operator from the
//! table of binding powers.

use vstd::prelude::*;
use crate::precedence;
use crate::cursor::TokenCursor;
use crate::error::ParseError;
use crate::grammar::head;
use crate::grammar::rest;
use crate::lexer::lexeme_of;
use crate::lexer::Lexer;
use crate::parse_tree::NodeType;
use crate::parse_tree::ParseTree;
use crate::parse_tree::Tree;
use crate::precedence::binding_powers;
use crate::precedence::in_order;
use crate::precedence::is_expression_tree;
use crate::precedence::lemma_expression_is_expression_tree;
use crate::precedence::lemma_expression_keeps_the_tokens;
use crate::precedence::lemma_expression_respects_powers;
use crate::precedence::node_type_of;
use crate::precedence::respects_powers;
use crate::scan::lex_from;
use crate::scan::LexError;
use crate::scan::Lexeme;
use crate::token::Token;
use crate::token::TokenKind;

verus! {

/// What a rule has made of the stream: the tree and `left` if it succeeded,
/// its error if not.
pub open spec fn outcome(result: Result<ParseTree, ParseError>, left: Seq<Lexeme>)
    -> precedence::Parsed {
    match result {
        Ok(tree) => Ok((tree@, left)),
        Err(error) => Err(error),
    }
}

impl Token {
    /// The left and the right binding power of `token`, or an error if the
    /// table has no entry for its kind.
    pub fn binding_powers(token: &Token) -> (powers: Result<(i32, i32), ParseError>)
        ensures
            match powers {
                Ok((left, right)) => binding_powers(token.spec_kind()) == Some(
                    (left as int, right as int),
                ),
                Err(error) => binding_powers(token.spec_kind()) is None && error
                    == ParseError::MissingBindingPower(token.spec_kind()),
            },
    {
        match token {
            Token::ID(_) => Ok((3, 3)),
            Token::ADD => Ok((2, 3)),
            Token::ASSIGN => Ok((2, 1)),
            Token::EOI => Ok((0, 0)),
            _ => Err(ParseError::MissingBindingPower(token.kind())),
        }
    }

    /// How strongly this token binds to an operand on its left.
    pub fn left_bp(&self) -> (power: Result<i32, ParseError>)
        ensures
            match power {
                Ok(left) => precedence::left_power(Ok(self@)) == Ok::<int, ParseError>(left as int),
                Err(error) => precedence::left_power(Ok(self@)) == Err::<int, ParseError>(error),
            },
    {
        match Token::binding_powers(self) {
            Ok(powers) => Ok(powers.0),
            Err(error) => Err(error),
        }
    }

    /// How strongly what follows this token must bind to become part of its
    /// right operand.
    pub fn right_bp(&self) -> (power: Result<i32, ParseError>)
        ensures
            match power {
                Ok(right) => binding_powers(self.spec_kind()) is Some && right
                    == precedence::right_power(self.spec_kind()),
                Err(error) => binding_powers(self.spec_kind()) is None && error
                    == ParseError::MissingBindingPower(self.spec_kind()),
            },
    {
        match Token::binding_powers(self) {
            Ok(powers) => Ok(powers.1),
            Err(error) => Err(error),
        }
    }
}

/// What a node with a token of the given kind stands for.
pub fn node_type_for(kind: TokenKind) -> (node_type: NodeType)
    ensures
        node_type == node_type_of(kind),
{
    match kind {
        TokenKind::ASSIGN => NodeType::AssignmentStatement,
        TokenKind::ADD => NodeType::AdditionExpression,
        _ => NodeType::Identifier,
    }
}

/// A parser that turns the expression at the head of a token stream into
/// a parse tree.
pub struct PrattParser {
    cursor: TokenCursor,
}

impl PrattParser {
    /// The lexemes that are still to be consumed, the current one first.
    pub closed spec fn remaining(&self) -> Seq<Lexeme> {
        self.cursor.remaining()
    }

    /// A parser on the first lexeme that `lexer` has not yet produced.
    pub fn new(lexer: Lexer) -> (parser: PrattParser)
        ensures
            parser.remaining() == lex_from(lexer@.source, lexer@.cursor),
    {
        PrattParser { cursor: TokenCursor::new(lexer) }
    }

    /// Parses one expression and returns its tree. What follows the
    /// expression is left in the stream.
    ///
    /// The tree holds exactly the tokens that were consumed, in their order;
    /// its leaves are identifiers and its other nodes operators with two
    /// operands; and it is shaped as the binding powers ask.
    pub fn analyze(&mut self) -> (result: Result<ParseTree, ParseError>)
        ensures
            outcome(result, final(self).remaining()) == precedence::expression(
                old(self).remaining(),
                0,
            ),
            result matches Ok(tree) ==> {
                &&& in_order(tree@) + final(self).remaining() == old(self).remaining()
                &&& is_expression_tree(tree@)
                &&& respects_powers(tree@, 0)
            },
    {
        proof {
            lemma_expression_keeps_the_tokens(self.remaining(), 0);
            lemma_expression_is_expression_tree(self.remaining(), 0);
            lemma_expression_respects_powers(self.remaining(), 0);
        }
        self.pratt_driver(0)
    }

    /// Parses one expression, taking in only operators whose left binding
    /// power exceeds `requested_bp`.
    pub fn pratt_driver(&mut self, requested_bp: i32) -> (result: Result<ParseTree, ParseError>)
        ensures
            outcome(result, final(self).remaining()) == precedence::expression(
                old(self).remaining(),
                requested_bp as int,
            ),
        decreases old(self).remaining().len(), 0int,
    {
        let first = match self.current() {
            Ok(token) => token,
            Err(error) => {
                return Err(ParseError::Lexical(error));
            },
        };
        self.advance();
        let mut left_denotation = self.func_prefix(first)?;
        let ghost start = self.remaining();
        let ghost leaf = left_denotation@;
        loop
            invariant
                self.remaining().len() <= start.len(),
                start.len() < old(self).remaining().len(),
                precedence::operators(left_denotation@, self.remaining(), requested_bp as int)
                    == precedence::operators(leaf, start, requested_bp as int),
                precedence::expression(old(self).remaining(), requested_bp as int)
                    == precedence::operators(leaf, start, requested_bp as int),
            decreases self.remaining().len(),
        {
            let operator = match self.current() {
                Ok(token) => token,
                Err(error) => {
                    return Err(ParseError::Lexical(error));
                },
            };
            let power = operator.left_bp()?;
            if requested_bp >= power {
                return Ok(left_denotation);
            }
            self.advance();
            proof {
                precedence::lemma_infix_consumes(operator@, left_denotation@, self.remaining());
            }
            left_denotation = self.func_infix(operator, left_denotation)?;
        }
    }

    /// The tree that `token` forms at the start of an expression.
    pub fn func_prefix(&mut self, token: Token) -> (result: Result<ParseTree, ParseError>)
        ensures
            final(self).remaining() == old(self).remaining(),
            match result {
                Ok(tree) => precedence::prefix(Ok(token@)) == Ok::<Tree, ParseError>(tree@),
                Err(error) => precedence::prefix(Ok(token@)) == Err::<Tree, ParseError>(error),
            },
    {
        match token {
            Token::ID(_) => {
                let node_type = node_type_for(token.kind());
                Ok(ParseTree::new(token, node_type))
            },
            _ => Err(ParseError::MissingPrefix(token.kind())),
        }
    }

    /// The node that the operator `token` forms with `left_denotation` and
    /// with the expression that follows, which is parsed with the
    /// operator's right binding power.
    pub fn func_infix(&mut self, token: Token, left_denotation: ParseTree) -> (result: Result<
        ParseTree,
        ParseError,
    >)
        ensures
            outcome(result, final(self).remaining()) == precedence::infix(
                token@,
                left_denotation@,
                old(self).remaining(),
            ),
        decreases old(self).remaining().len(), 1int,
    {
        match token {
            Token::ADD | Token::ASSIGN => {
                let power = match token.right_bp() {
                    Ok(power) => power,
                    Err(error) => {
                        return Err(error);
                    },
                };
                let node_type = node_type_for(token.kind());
                let ghost operator = token@;
                let mut node = ParseTree::new(token, node_type);
                let right_denotation = self.pratt_driver(power)?;
                node.push(left_denotation);
                node.push(right_denotation);
                assert(node@.children =~= seq![left_denotation@, right_denotation@]);
                Ok(node)
            },
            _ => Err(ParseError::MissingInfix(token.kind())),
        }
    }

    /// The lexeme under the cursor.
    pub fn current(&self) -> (lexeme: Result<Token, LexError>)
        ensures
            lexeme_of(lexeme) == head(self.remaining()),
    {
        self.cursor.current()
    }

    /// Moves to the next lexeme, unless the cursor is on the last one.
    pub fn advance(&mut self)
        ensures
            final(self).remaining() == rest(old(self).remaining()),
    {
        self.cursor.advance()
    }
}

/// Parses the expression at the start of a source text into its tree.
pub fn parse_expression(input: String) -> (result: Result<ParseTree, ParseError>)
    ensures
        match result {
            Ok(tree) => precedence::expression(lex_from(input@, 0), 0) matches Ok((model, _))
                && tree@ == model,
            Err(error) => precedence::expression(lex_from(input@, 0), 0) == Err::<
                (Tree, Seq<Lexeme>),
                ParseError,
            >(error),
        },
{
    let mut parser = PrattParser::new(Lexer::new(input));
    parser.analyze()
}

} // verus!
