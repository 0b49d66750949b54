//! The parse tree: a token at every node, and an ordered list of children
//! that the node owns.

use vstd::prelude::*;
use crate::text::integer_text;
use crate::text::push_char;
use crate::text::push_integer;
use crate::token::Payload;
use crate::token::Token;
use crate::token::TokenView;

verus! {

/// What a node of the tree stands for.
#[derive(Clone, Copy, Debug, PartialEq, Eq, Structural)]
pub enum NodeType {
    FunctionDefinition,
    AssignmentStatement,
    AdditionExpression,
    Identifier,
}

/// The mathematical value of a parse tree.
pub struct Tree {
    pub token: TokenView,
    pub node_type: NodeType,
    /// The children from left to right. Their order is significant.
    pub children: Seq<Tree>,
}

/// A rooted, ordered tree of tokens.
pub struct ParseTree {
    token: Token,
    node_type: NodeType,
    children: Vec<Box<ParseTree>>,
}

/// The label of a node: the name of the token's kind, followed in
/// parentheses by its payload if it has one. Text stands in double quotes,
/// a character in single quotes, an integer in decimal notation, and a
/// float as the decimal notation of its bit pattern.
pub open spec fn label(token: TokenView) -> Seq<char> {
    match token.payload {
        Payload::Nothing => token.kind.spec_name(),
        Payload::Text(text) => token.kind.spec_name() + seq!['(', '"'] + text + seq!['"', ')'],
        Payload::Int(value) => token.kind.spec_name() + seq!['('] + integer_text(value as int)
            + seq![')'],
        Payload::Bits(bits) => token.kind.spec_name() + seq!['('] + integer_text(bits as int)
            + seq![')'],
        Payload::Char(c) => token.kind.spec_name() + seq!['(', '\'', c, '\'', ')'],
    }
}

/// `n` spaces.
pub open spec fn spaces(n: nat) -> Seq<char> {
    Seq::new(n, |i: int| ' ')
}

/// The text of a tree whose root stands `level` levels deep: one line per
/// node, the root first and then its children from left to right, each
/// line indented by two spaces per level and ended by a line feed.
pub open spec fn render(tree: Tree, level: nat) -> Seq<char>
    decreases tree, 1int,
{
    spaces(2 * level) + label(tree.token) + seq!['\n'] + render_children(
        tree,
        tree.children.len(),
        level + 1,
    )
}

/// The text of the first `count` children of `tree`, each at `level`.
pub open spec fn render_children(tree: Tree, count: nat, level: nat) -> Seq<char>
    decreases tree, 0int, count,
{
    if count == 0 || count > tree.children.len() {
        Seq::empty()
    } else {
        render_children(tree, (count - 1) as nat, level) + render(
            tree.children[count - 1],
            level,
        )
    }
}

impl ParseTree {
    /// The value of this tree.
    pub closed spec fn model(&self) -> Tree
        decreases self,
    {
        Tree {
            token: self.token@,
            node_type: self.node_type,
            children: Seq::new(
                self.children@.len(),
                |i: int|
                    if 0 <= i < self.children@.len() {
                        self.children@[i].model()
                    } else {
                        arbitrary()
                    },
            ),
        }
    }

    /// A leaf: a node without children.
    pub fn new(token: Token, node_type: NodeType) -> (tree: ParseTree)
        ensures
            tree@ == (Tree { token: token@, node_type, children: Seq::empty() }),
    {
        let tree = ParseTree { token, node_type, children: Vec::new() };
        assert(tree.model().children =~= Seq::empty());
        tree
    }

    /// Adds `tree` as the last child of this node.
    pub fn push(&mut self, tree: ParseTree)
        ensures
            final(self)@ == (Tree {
                token: old(self)@.token,
                node_type: old(self)@.node_type,
                children: old(self)@.children.push(tree@),
            }),
    {
        self.children.push(Box::new(tree));
        assert(self.model().children =~= old(self).model().children.push(tree.model()));
    }

    /// The token at this node.
    pub fn token(&self) -> (token: &Token)
        ensures
            token@ == self@.token,
    {
        &self.token
    }

    /// What this node stands for.
    pub fn node_type(&self) -> (node_type: NodeType)
        ensures
            node_type == self@.node_type,
    {
        self.node_type
    }

    /// The number of children of this node.
    pub fn child_count(&self) -> (count: usize)
        ensures
            count == self@.children.len(),
    {
        self.children.len()
    }

    /// The child at place `index`, counted from the left and from zero, if
    /// the node has that many children.
    pub fn child(&self, index: usize) -> (child: Option<&ParseTree>)
        ensures
            match child {
                Some(tree) => index < self@.children.len() && tree@ == self@.children[index as int],
                None => index >= self@.children.len(),
            },
    {
        if index < self.children.len() {
            Some(&*self.children[index])
        } else {
            None
        }
    }

    /// The label of this node.
    pub fn node_string(&self) -> (text: String)
        ensures
            text@ == label(self@.token),
    {
        let mut text = String::from_str(self.token.kind().name());
        match &self.token {
            Token::ID(name) => {
                push_char(&mut text, '(');
                push_char(&mut text, '"');
                text.append(name.as_str());
                push_char(&mut text, '"');
                push_char(&mut text, ')');
                assert(text@ =~= label(self@.token));
            },
            Token::LIT_STRING(content) => {
                push_char(&mut text, '(');
                push_char(&mut text, '"');
                text.append(content.as_str());
                push_char(&mut text, '"');
                push_char(&mut text, ')');
                assert(text@ =~= label(self@.token));
            },
            Token::LIT_INT32(value) => {
                push_char(&mut text, '(');
                push_integer(&mut text, *value as i64);
                push_char(&mut text, ')');
                assert(text@ =~= label(self@.token));
            },
            Token::LIT_FLT32(bits) => {
                push_char(&mut text, '(');
                push_integer(&mut text, *bits as i64);
                push_char(&mut text, ')');
                assert(text@ =~= label(self@.token));
            },
            Token::LIT_CHAR(c) => {
                push_char(&mut text, '(');
                push_char(&mut text, '\'');
                push_char(&mut text, *c);
                push_char(&mut text, '\'');
                push_char(&mut text, ')');
                assert(text@ =~= label(self@.token));
            },
            _ => {},
        }
        text
    }

    /// Appends the text of this tree to `out`. `indent` holds the
    /// indentation of the root and is handed back as it was.
    fn print_recursively(&self, indent: &mut String, out: &mut String, Ghost(level): Ghost<nat>)
        requires
            old(indent)@ == spaces(2 * level),
        ensures
            final(indent)@ == old(indent)@,
            final(out)@ == old(out)@ + render(self@, level),
        decreases self,
    {
        out.append(indent.as_str());
        let line = self.node_string();
        out.append(line.as_str());
        push_char(out, '\n');
        let ghost head = out@;
        let deeper = indent.clone();
        let mut deeper = deeper;
        push_char(&mut deeper, ' ');
        push_char(&mut deeper, ' ');
        assert(deeper@ =~= spaces(2 * (level + 1)));
        let mut i: usize = 0;
        while i < self.children.len()
            invariant
                i <= self.children.len(),
                deeper@ == spaces(2 * (level + 1)),
                out@ == head + render_children(self@, i as nat, level + 1),
            decreases self.children.len() - i,
        {
            let child = &self.children[i];
            assert(child.model() == self@.children[i as int]);
            child.print_recursively(&mut deeper, out, Ghost(level + 1));
            assert(out@ =~= head + render_children(self@, (i + 1) as nat, level + 1));
            i = i + 1;
        }
        assert(out@ =~= old(out)@ + render(self@, level));
    }

    /// The text of this tree: one line per node, the root first and every
    /// node before its children, indented by two spaces per level.
    pub fn print(&self) -> (text: String)
        ensures
            text@ == render(self@, 0),
    {
        let mut indent = String::new();
        let mut text = String::new();
        assert(indent@ =~= spaces(0));
        self.print_recursively(&mut indent, &mut text, Ghost(0));
        text
    }
}

impl View for ParseTree {
    type V = Tree;

    open spec fn view(&self) -> Tree {
        self.model()
    }
}

} // verus!
