//! Operator precedence as data: the binding powers of the tokens, and the
//! tree that they give to a stream of lexemes.

use vstd::prelude::*;
use crate::error::ParseError;
use crate::grammar::head;
use crate::grammar::rest;
use crate::parse_tree::NodeType;
use crate::parse_tree::Tree;
use crate::scan::plain;
use crate::scan::Lexeme;
use crate::token::Payload;
use crate::token::TokenKind;
use crate::token::TokenView;

verus! {

/// What the parser makes of a stream: a tree and the lexemes that are left
/// after it, or the error.
pub type Parsed = Result<(Tree, Seq<Lexeme>), ParseError>;

/// The table of binding powers: for each kind that has an entry, how
/// strongly a token of that kind binds to the operand on its left, and how
/// strongly what follows it must bind to become part of its right operand.
pub open spec fn binding_powers(kind: TokenKind) -> Option<(int, int)> {
    match kind {
        TokenKind::ID => Some((3int, 3int)),
        TokenKind::ADD => Some((2int, 3int)),
        TokenKind::ASSIGN => Some((2int, 1int)),
        TokenKind::EOI => Some((0int, 0int)),
        _ => None,
    }
}

/// What a node with a token of the given kind stands for.
pub open spec fn node_type_of(kind: TokenKind) -> NodeType {
    match kind {
        TokenKind::ASSIGN => NodeType::AssignmentStatement,
        TokenKind::ADD => NodeType::AdditionExpression,
        _ => NodeType::Identifier,
    }
}

/// Whether a token of the given kind can stand between two operands.
pub open spec fn is_infix(kind: TokenKind) -> bool {
    kind == TokenKind::ADD || kind == TokenKind::ASSIGN
}

/// The left binding power of the lexeme, or why it has none.
pub open spec fn left_power(lexeme: Lexeme) -> Result<int, ParseError> {
    match lexeme {
        Err(error) => Err(ParseError::Lexical(error)),
        Ok(token) => match binding_powers(token.kind) {
            Some(powers) => Ok(powers.0),
            None => Err(ParseError::MissingBindingPower(token.kind)),
        },
    }
}

/// The right binding power of a token kind; meaningful for kinds with an entry.
pub open spec fn right_power(kind: TokenKind) -> int {
    match binding_powers(kind) {
        Some(powers) => powers.1,
        None => 0,
    }
}

/// A node without children.
pub open spec fn leaf(token: TokenView) -> Tree {
    Tree { token, node_type: node_type_of(token.kind), children: Seq::empty() }
}

/// A node with exactly two children: the left operand, then the right one.
pub open spec fn binary(operator: TokenView, left: Tree, right: Tree) -> Tree {
    Tree { token: operator, node_type: node_type_of(operator.kind), children: seq![left, right] }
}

/// The tree that a lexeme forms at the start of an expression: an
/// identifier is a leaf, and nothing else has a meaning there.
pub open spec fn prefix(lexeme: Lexeme) -> Result<Tree, ParseError> {
    match lexeme {
        Err(error) => Err(ParseError::Lexical(error)),
        Ok(token) => if token.kind == TokenKind::ID {
            Ok(leaf(token))
        } else {
            Err(ParseError::MissingPrefix(token.kind))
        },
    }
}

/// One expression at the head of `toks`, taking in only operators whose
/// left binding power exceeds `min_bp`.
pub open spec fn expression(toks: Seq<Lexeme>, min_bp: int) -> Parsed
    decreases toks.len(), 0int,
{
    match prefix(head(toks)) {
        Err(e) => Err(e),
        Ok(left) => operators(left, rest(toks), min_bp),
    }
}

/// The operand `left` and the operators behind it: as long as the token
/// under the cursor binds to the left more strongly than `min_bp`, it is
/// taken as an operator, and the node that it forms with `left` and with
/// its right operand becomes the new `left`.
///
/// An operator with its operand always consumes (see
/// [`lemma_infix_consumes`]), so the test on the lengths never fails; it is
/// what makes the definition well-founded.
pub open spec fn operators(left: Tree, toks: Seq<Lexeme>, min_bp: int) -> Parsed
    decreases toks.len(), 2int,
{
    match left_power(head(toks)) {
        Err(e) => Err(e),
        Ok(power) => if min_bp >= power {
            Ok((left, toks))
        } else {
            match infix(head(toks)->Ok_0, left, rest(toks)) {
                Err(e) => Err(e),
                Ok((tree, after)) => if after.len() < toks.len() {
                    operators(tree, after, min_bp)
                } else {
                    Ok((tree, after))
                },
            }
        },
    }
}

/// The node that `operator` forms with `left` and with the expression at
/// the head of `toks`, which is parsed with the operator's right binding power.
pub open spec fn infix(operator: TokenView, left: Tree, toks: Seq<Lexeme>) -> Parsed
    decreases toks.len(), 1int,
{
    if is_infix(operator.kind) {
        match expression(toks, right_power(operator.kind)) {
            Err(e) => Err(e),
            Ok((right, after)) => Ok((binary(operator, left, right), after)),
        }
    } else {
        Err(ParseError::MissingInfix(operator.kind))
    }
}

/// An expression that is accepted takes at least one token.
pub proof fn lemma_expression_consumes(toks: Seq<Lexeme>, min_bp: int)
    ensures
        expression(toks, min_bp) matches Ok((_, after)) ==> after.len() < toks.len(),
    decreases toks.len(), 0int,
{
    if let Ok(left) = prefix(head(toks)) {
        lemma_operators_keep(left, rest(toks), min_bp);
    }
}

/// Operators give nothing back.
pub proof fn lemma_operators_keep(left: Tree, toks: Seq<Lexeme>, min_bp: int)
    ensures
        operators(left, toks, min_bp) matches Ok((_, after)) ==> after.len() <= toks.len(),
    decreases toks.len(), 2int,
{
    if let Ok(power) = left_power(head(toks)) {
        if min_bp < power {
            let operator = head(toks)->Ok_0;
            lemma_infix_consumes(operator, left, rest(toks));
            if let Ok((tree, after)) = infix(operator, left, rest(toks)) {
                if after.len() < toks.len() {
                    lemma_operators_keep(tree, after, min_bp);
                }
            }
        }
    }
}

/// An operator that is accepted takes at least one token for its right operand.
pub proof fn lemma_infix_consumes(operator: TokenView, left: Tree, toks: Seq<Lexeme>)
    ensures
        infix(operator, left, toks) matches Ok((_, after)) ==> after.len() < toks.len(),
    decreases toks.len(), 1int,
{
    if is_infix(operator.kind) {
        lemma_expression_consumes(toks, right_power(operator.kind));
    }
}

/// The shape of an expression tree: a leaf holds an identifier and has no
/// children, and every other node holds an operator and has exactly two
/// children, which are expression trees themselves.
pub open spec fn is_expression_tree(tree: Tree) -> bool
    decreases tree,
{
    if tree.children.len() == 0 {
        tree.token.kind == TokenKind::ID
    } else {
        &&& is_infix(tree.token.kind)
        &&& tree.children.len() == 2
        &&& is_expression_tree(tree.children[0])
        &&& is_expression_tree(tree.children[1])
    }
}

/// Every tree that the parser returns is an expression tree.
pub proof fn lemma_expression_is_expression_tree(toks: Seq<Lexeme>, min_bp: int)
    ensures
        expression(toks, min_bp) matches Ok((tree, _)) ==> is_expression_tree(tree),
    decreases toks.len(), 0int,
{
    if let Ok(left) = prefix(head(toks)) {
        lemma_operators_keep_the_shape(left, rest(toks), min_bp);
    }
}

/// Operators behind an expression tree give an expression tree.
pub proof fn lemma_operators_keep_the_shape(left: Tree, toks: Seq<Lexeme>, min_bp: int)
    requires
        is_expression_tree(left),
    ensures
        operators(left, toks, min_bp) matches Ok((tree, _)) ==> is_expression_tree(tree),
    decreases toks.len(), 2int,
{
    if let Ok(power) = left_power(head(toks)) {
        if min_bp < power {
            let operator = head(toks)->Ok_0;
            lemma_infix_keeps_the_shape(operator, left, rest(toks));
            if let Ok((tree, after)) = infix(operator, left, rest(toks)) {
                if after.len() < toks.len() {
                    lemma_operators_keep_the_shape(tree, after, min_bp);
                }
            }
        }
    }
}

/// An operator between two expression trees gives an expression tree.
pub proof fn lemma_infix_keeps_the_shape(operator: TokenView, left: Tree, toks: Seq<Lexeme>)
    requires
        is_expression_tree(left),
    ensures
        infix(operator, left, toks) matches Ok((tree, _)) ==> is_expression_tree(tree),
    decreases toks.len(), 1int,
{
    if is_infix(operator.kind) {
        lemma_expression_is_expression_tree(toks, right_power(operator.kind));
        if let Ok((right, after)) = expression(toks, right_power(operator.kind)) {
            let tree = binary(operator, left, right);
            assert(tree.children[0] == left);
            assert(tree.children[1] == right);
        }
    }
}

/// The tokens of a tree from left to right: those of the left operand,
/// the operator, those of the right operand.
pub open spec fn in_order(tree: Tree) -> Seq<Lexeme>
    decreases tree,
{
    if tree.children.len() == 2 {
        in_order(tree.children[0]) + seq![Ok(tree.token)] + in_order(tree.children[1])
    } else {
        seq![Ok(tree.token)]
    }
}

/// The tree of an expression holds exactly the tokens that were consumed,
/// in their order: read from left to right and followed by what is left of
/// the stream, they are the stream. And the token that follows the
/// expression binds to the left no more strongly than `min_bp`.
pub proof fn lemma_expression_keeps_the_tokens(toks: Seq<Lexeme>, min_bp: int)
    ensures
        expression(toks, min_bp) matches Ok((tree, after)) ==> {
            &&& in_order(tree) + after == toks
            &&& left_power(head(after)) matches Ok(power)
            &&& power <= min_bp
        },
    decreases toks.len(), 0int,
{
    if let Ok(left) = prefix(head(toks)) {
        lemma_operators_keep_the_tokens(left, rest(toks), min_bp);
        if let Ok((tree, after)) = operators(left, rest(toks), min_bp) {
            assert(in_order(left) + rest(toks) =~= toks);
            assert(in_order(tree) + after =~= toks);
        }
    }
}

/// Operators add to the tree the tokens that they consume.
pub proof fn lemma_operators_keep_the_tokens(left: Tree, toks: Seq<Lexeme>, min_bp: int)
    ensures
        operators(left, toks, min_bp) matches Ok((tree, after)) ==> {
            &&& in_order(tree) + after == in_order(left) + toks
            &&& left_power(head(after)) matches Ok(power)
            &&& power <= min_bp
        },
    decreases toks.len(), 2int,
{
    if let Ok(power) = left_power(head(toks)) {
        if min_bp < power {
            let operator = head(toks)->Ok_0;
            lemma_infix_keeps_the_tokens(operator, left, rest(toks));
            if let Ok((tree, after)) = infix(operator, left, rest(toks)) {
                assert(seq![head(toks)] + rest(toks) =~= toks);
                assert(in_order(tree) + after =~= in_order(left) + toks);
                if after.len() < toks.len() {
                    lemma_operators_keep_the_tokens(tree, after, min_bp);
                } else {
                    lemma_infix_consumes(operator, left, rest(toks));
                }
            }
        }
    }
}

/// An operator adds itself and the tokens of its right operand to the tree.
pub proof fn lemma_infix_keeps_the_tokens(operator: TokenView, left: Tree, toks: Seq<Lexeme>)
    ensures
        infix(operator, left, toks) matches Ok((tree, after)) ==> in_order(tree) + after
            == in_order(left) + seq![Ok(operator)] + toks,
    decreases toks.len(), 1int,
{
    if is_infix(operator.kind) {
        lemma_expression_keeps_the_tokens(toks, right_power(operator.kind));
        if let Ok((right, after)) = expression(toks, right_power(operator.kind)) {
            let tree = binary(operator, left, right);
            assert(tree.children[0] == left);
            assert(tree.children[1] == right);
            assert(in_order(tree) + after =~= in_order(left) + seq![Ok(operator)] + (in_order(
                right,
            ) + after));
        }
    }
}

/// The left binding power of a token kind; meaningful for kinds with an entry.
pub open spec fn left_power_of(kind: TokenKind) -> int {
    match binding_powers(kind) {
        Some(powers) => powers.0,
        None => 0,
    }
}

/// Whether a tree that was parsed with `min_bp` is shaped as the binding
/// powers ask. Its root operator binds to the left more strongly than
/// `min_bp`. The right operand was parsed with the right binding power of
/// the root operator. The left operand was parsed with `min_bp` as well,
/// and where it ends in an operator of its own, that operator let go of the
/// root operator: its right binding power is no less than the left binding
/// power of the root operator.
pub open spec fn respects_powers(tree: Tree, min_bp: int) -> bool
    decreases tree,
{
    tree.children.len() == 2 ==> {
        &&& left_power_of(tree.token.kind) > min_bp
        &&& respects_powers(tree.children[1], right_power(tree.token.kind))
        &&& respects_powers(tree.children[0], min_bp)
        &&& tree.children[0].children.len() == 2 ==> left_power_of(tree.token.kind)
            <= right_power(tree.children[0].token.kind)
    }
}

/// Every tree that the parser returns is shaped as the binding powers ask.
pub proof fn lemma_expression_respects_powers(toks: Seq<Lexeme>, min_bp: int)
    ensures
        expression(toks, min_bp) matches Ok((tree, _)) ==> respects_powers(tree, min_bp),
    decreases toks.len(), 0int,
{
    if let Ok(left) = prefix(head(toks)) {
        lemma_operators_respect_powers(left, rest(toks), min_bp);
    }
}

/// Operators behind a tree that respects the binding powers, and whose
/// last operator lets go of the token under the cursor, give such a tree.
pub proof fn lemma_operators_respect_powers(left: Tree, toks: Seq<Lexeme>, min_bp: int)
    requires
        respects_powers(left, min_bp),
        left.children.len() == 2 ==> (left_power(head(toks)) matches Ok(power) ==> power
            <= right_power(left.token.kind)),
    ensures
        operators(left, toks, min_bp) matches Ok((tree, _)) ==> respects_powers(tree, min_bp),
    decreases toks.len(), 2int,
{
    if let Ok(power) = left_power(head(toks)) {
        if min_bp < power {
            let operator = head(toks)->Ok_0;
            if is_infix(operator.kind) {
                let bp = right_power(operator.kind);
                lemma_expression_respects_powers(rest(toks), bp);
                lemma_expression_keeps_the_tokens(rest(toks), bp);
                if let Ok((right, after)) = expression(rest(toks), bp) {
                    let tree = binary(operator, left, right);
                    assert(tree.children[0] == left);
                    assert(tree.children[1] == right);
                    assert(infix(operator, left, rest(toks)) == Ok::<
                        (Tree, Seq<Lexeme>),
                        ParseError,
                    >((tree, after)));
                    assert(respects_powers(tree, min_bp));
                    if after.len() < toks.len() {
                        lemma_operators_respect_powers(tree, after, min_bp);
                    }
                }
            }
        }
    }
}

/// An identifier token of the given name.
pub open spec fn identifier(name: Seq<char>) -> TokenView {
    TokenView { kind: TokenKind::ID, payload: Payload::Text(name) }
}

/// The stream of two operators between three identifiers, and then the end
/// of the input.
pub open spec fn chain(
    a: Seq<char>,
    first: TokenKind,
    b: Seq<char>,
    second: TokenKind,
    c: Seq<char>,
) -> Seq<Lexeme> {
    seq![
        Ok(identifier(a)),
        Ok(plain(first)),
        Ok(identifier(b)),
        Ok(plain(second)),
        Ok(identifier(c)),
        Ok(plain(TokenKind::EOI)),
    ]
}

/// Addition associates to the left: `a + b + c` is the sum of `a + b` and `c`.
pub proof fn lemma_addition_associates_left(a: Seq<char>, b: Seq<char>, c: Seq<char>)
    ensures
        expression(chain(a, TokenKind::ADD, b, TokenKind::ADD, c), 0) == Ok::<
            (Tree, Seq<Lexeme>),
            ParseError,
        >(
            (
                binary(
                    plain(TokenKind::ADD),
                    binary(plain(TokenKind::ADD), leaf(identifier(a)), leaf(identifier(b))),
                    leaf(identifier(c)),
                ),
                seq![Ok(plain(TokenKind::EOI))],
            ),
        ),
{
    let add = plain(TokenKind::ADD);
    let end: Seq<Lexeme> = seq![Ok(plain(TokenKind::EOI))];
    let t0 = chain(a, TokenKind::ADD, b, TokenKind::ADD, c);
    let t1 = t0.skip(1);
    let t2 = t1.skip(1);
    let t3 = t2.skip(1);
    let t4 = t3.skip(1);
    let t5 = t4.skip(1);
    assert(t5 =~= end);
    let ab = binary(add, leaf(identifier(a)), leaf(identifier(b)));
    let abc = binary(add, ab, leaf(identifier(c)));
    // `c` alone, as the right operand of the second `+`
    assert(operators(leaf(identifier(c)), t5, 3) == Ok::<(Tree, Seq<Lexeme>), ParseError>(
        (leaf(identifier(c)), t5),
    ));
    assert(expression(t4, 3) == Ok::<(Tree, Seq<Lexeme>), ParseError>((leaf(identifier(c)), t5)));
    assert(infix(add, ab, t4) == Ok::<(Tree, Seq<Lexeme>), ParseError>((abc, t5)));
    assert(operators(abc, t5, 0) == Ok::<(Tree, Seq<Lexeme>), ParseError>((abc, t5)));
    assert(operators(ab, t3, 0) == Ok::<(Tree, Seq<Lexeme>), ParseError>((abc, t5)));
    // `b` alone, as the right operand of the first `+`
    assert(operators(leaf(identifier(b)), t3, 3) == Ok::<(Tree, Seq<Lexeme>), ParseError>(
        (leaf(identifier(b)), t3),
    ));
    assert(expression(t2, 3) == Ok::<(Tree, Seq<Lexeme>), ParseError>((leaf(identifier(b)), t3)));
    assert(infix(add, leaf(identifier(a)), t2) == Ok::<(Tree, Seq<Lexeme>), ParseError>((ab, t3)));
    assert(operators(leaf(identifier(a)), t1, 0) == Ok::<(Tree, Seq<Lexeme>), ParseError>(
        (abc, t5),
    ));
}

/// Assignment associates to the right: `a = b = c` assigns `b = c` to `a`.
pub proof fn lemma_assignment_associates_right(a: Seq<char>, b: Seq<char>, c: Seq<char>)
    ensures
        expression(chain(a, TokenKind::ASSIGN, b, TokenKind::ASSIGN, c), 0) == Ok::<
            (Tree, Seq<Lexeme>),
            ParseError,
        >(
            (
                binary(
                    plain(TokenKind::ASSIGN),
                    leaf(identifier(a)),
                    binary(plain(TokenKind::ASSIGN), leaf(identifier(b)), leaf(identifier(c))),
                ),
                seq![Ok(plain(TokenKind::EOI))],
            ),
        ),
{
    let assign = plain(TokenKind::ASSIGN);
    let end: Seq<Lexeme> = seq![Ok(plain(TokenKind::EOI))];
    let t0 = chain(a, TokenKind::ASSIGN, b, TokenKind::ASSIGN, c);
    let t1 = t0.skip(1);
    let t2 = t1.skip(1);
    let t3 = t2.skip(1);
    let t4 = t3.skip(1);
    let t5 = t4.skip(1);
    assert(t5 =~= end);
    let bc = binary(assign, leaf(identifier(b)), leaf(identifier(c)));
    let abc = binary(assign, leaf(identifier(a)), bc);
    // `c` alone, as the right operand of the second `=`
    assert(operators(leaf(identifier(c)), t5, 1) == Ok::<(Tree, Seq<Lexeme>), ParseError>(
        (leaf(identifier(c)), t5),
    ));
    assert(expression(t4, 1) == Ok::<(Tree, Seq<Lexeme>), ParseError>((leaf(identifier(c)), t5)));
    assert(infix(assign, leaf(identifier(b)), t4) == Ok::<(Tree, Seq<Lexeme>), ParseError>(
        (bc, t5),
    ));
    assert(operators(bc, t5, 1) == Ok::<(Tree, Seq<Lexeme>), ParseError>((bc, t5)));
    // `b = c`, as the right operand of the first `=`
    assert(operators(leaf(identifier(b)), t3, 1) == Ok::<(Tree, Seq<Lexeme>), ParseError>(
        (bc, t5),
    ));
    assert(expression(t2, 1) == Ok::<(Tree, Seq<Lexeme>), ParseError>((bc, t5)));
    assert(infix(assign, leaf(identifier(a)), t2) == Ok::<(Tree, Seq<Lexeme>), ParseError>(
        (abc, t5),
    ));
    assert(operators(abc, t5, 0) == Ok::<(Tree, Seq<Lexeme>), ParseError>((abc, t5)));
    assert(operators(leaf(identifier(a)), t1, 0) == Ok::<(Tree, Seq<Lexeme>), ParseError>(
        (abc, t5),
    ));
}

} // verus!
