//! The token model: one lexical unit, its kind, and its payload.

use vstd::prelude::*;

verus! {

/// The kind of a token: which variant it is, without any payload.
#[allow(non_camel_case_types)]
#[derive(Clone, Copy, Debug, PartialEq, Eq, Structural)]
pub enum TokenKind {
    PARENS_L,
    PARENS_R,
    BRACKET_L,
    BRACKET_R,
    BRACE_L,
    BRACE_R,
    POINT,
    COMMA,
    COLON,
    SEMICOLON,
    ARROW_R,
    ADD,
    SUB,
    MUL,
    DIV,
    EQ,
    LT,
    GT,
    NEQ,
    NLT,
    NGT,
    NOT,
    AND,
    OR,
    ASSIGN,
    FUNC,
    LET,
    IF,
    ELSE,
    THEN,
    WHILE,
    PRINT,
    ID,
    TYPE_INT32,
    TYPE_FLT32,
    TYPE_CHAR,
    TYPE_STRING,
    TYPE_BOOL,
    LIT_INT32,
    LIT_FLT32,
    LIT_CHAR,
    LIT_STRING,
    EOI,
    RETURN,
}

/// What a token carries besides its kind.
pub enum Payload {
    /// Punctuation, operators, keywords, type names and end of input carry nothing.
    Nothing,
    /// The name of an identifier or the text of a string literal.
    Text(Seq<char>),
    /// The value of an integer literal.
    Int(i32),
    /// The IEEE-754 bit pattern of a 32-bit float literal.
    Bits(u32),
    /// The value of a character literal.
    Char(char),
}

/// The mathematical value of a token: its kind and its payload.
pub struct TokenView {
    pub kind: TokenKind,
    pub payload: Payload,
}

/// One lexical unit. A float literal holds the IEEE-754 bit pattern of its value.
#[allow(non_camel_case_types)]
#[derive(Debug)]
pub enum Token {
    PARENS_L,
    PARENS_R,
    BRACKET_L,
    BRACKET_R,
    BRACE_L,
    BRACE_R,
    POINT,
    COMMA,
    COLON,
    SEMICOLON,
    ARROW_R,
    ADD,
    SUB,
    MUL,
    DIV,
    EQ,
    LT,
    GT,
    NEQ,
    NLT,
    NGT,
    NOT,
    AND,
    OR,
    ASSIGN,
    FUNC,
    LET,
    IF,
    ELSE,
    THEN,
    WHILE,
    PRINT,
    ID(String),
    TYPE_INT32,
    TYPE_FLT32,
    TYPE_CHAR,
    TYPE_STRING,
    TYPE_BOOL,
    LIT_INT32(i32),
    LIT_FLT32(u32),
    LIT_CHAR(char),
    LIT_STRING(String),
    EOI,
    RETURN,
}

impl Token {
    /// The kind of this token.
    pub open spec fn spec_kind(&self) -> TokenKind {
        match self {
            Token::PARENS_L => TokenKind::PARENS_L,
            Token::PARENS_R => TokenKind::PARENS_R,
            Token::BRACKET_L => TokenKind::BRACKET_L,
            Token::BRACKET_R => TokenKind::BRACKET_R,
            Token::BRACE_L => TokenKind::BRACE_L,
            Token::BRACE_R => TokenKind::BRACE_R,
            Token::POINT => TokenKind::POINT,
            Token::COMMA => TokenKind::COMMA,
            Token::COLON => TokenKind::COLON,
            Token::SEMICOLON => TokenKind::SEMICOLON,
            Token::ARROW_R => TokenKind::ARROW_R,
            Token::ADD => TokenKind::ADD,
            Token::SUB => TokenKind::SUB,
            Token::MUL => TokenKind::MUL,
            Token::DIV => TokenKind::DIV,
            Token::EQ => TokenKind::EQ,
            Token::LT => TokenKind::LT,
            Token::GT => TokenKind::GT,
            Token::NEQ => TokenKind::NEQ,
            Token::NLT => TokenKind::NLT,
            Token::NGT => TokenKind::NGT,
            Token::NOT => TokenKind::NOT,
            Token::AND => TokenKind::AND,
            Token::OR => TokenKind::OR,
            Token::ASSIGN => TokenKind::ASSIGN,
            Token::FUNC => TokenKind::FUNC,
            Token::LET => TokenKind::LET,
            Token::IF => TokenKind::IF,
            Token::ELSE => TokenKind::ELSE,
            Token::THEN => TokenKind::THEN,
            Token::WHILE => TokenKind::WHILE,
            Token::PRINT => TokenKind::PRINT,
            Token::ID(_) => TokenKind::ID,
            Token::TYPE_INT32 => TokenKind::TYPE_INT32,
            Token::TYPE_FLT32 => TokenKind::TYPE_FLT32,
            Token::TYPE_CHAR => TokenKind::TYPE_CHAR,
            Token::TYPE_STRING => TokenKind::TYPE_STRING,
            Token::TYPE_BOOL => TokenKind::TYPE_BOOL,
            Token::LIT_INT32(_) => TokenKind::LIT_INT32,
            Token::LIT_FLT32(_) => TokenKind::LIT_FLT32,
            Token::LIT_CHAR(_) => TokenKind::LIT_CHAR,
            Token::LIT_STRING(_) => TokenKind::LIT_STRING,
            Token::EOI => TokenKind::EOI,
            Token::RETURN => TokenKind::RETURN,
        }
    }

    /// The payload of this token.
    pub open spec fn spec_payload(&self) -> Payload {
        match self {
            Token::ID(name) => Payload::Text(name@),
            Token::LIT_STRING(text) => Payload::Text(text@),
            Token::LIT_INT32(value) => Payload::Int(*value),
            Token::LIT_FLT32(bits) => Payload::Bits(*bits),
            Token::LIT_CHAR(c) => Payload::Char(*c),
            _ => Payload::Nothing,
        }
    }

    /// The kind of this token, the projection that every grammar comparison uses.
    #[verifier::when_used_as_spec(spec_kind)]
    pub fn kind(&self) -> (k: TokenKind)
        ensures
            k == self.spec_kind(),
    {
        match self {
            Token::PARENS_L => TokenKind::PARENS_L,
            Token::PARENS_R => TokenKind::PARENS_R,
            Token::BRACKET_L => TokenKind::BRACKET_L,
            Token::BRACKET_R => TokenKind::BRACKET_R,
            Token::BRACE_L => TokenKind::BRACE_L,
            Token::BRACE_R => TokenKind::BRACE_R,
            Token::POINT => TokenKind::POINT,
            Token::COMMA => TokenKind::COMMA,
            Token::COLON => TokenKind::COLON,
            Token::SEMICOLON => TokenKind::SEMICOLON,
            Token::ARROW_R => TokenKind::ARROW_R,
            Token::ADD => TokenKind::ADD,
            Token::SUB => TokenKind::SUB,
            Token::MUL => TokenKind::MUL,
            Token::DIV => TokenKind::DIV,
            Token::EQ => TokenKind::EQ,
            Token::LT => TokenKind::LT,
            Token::GT => TokenKind::GT,
            Token::NEQ => TokenKind::NEQ,
            Token::NLT => TokenKind::NLT,
            Token::NGT => TokenKind::NGT,
            Token::NOT => TokenKind::NOT,
            Token::AND => TokenKind::AND,
            Token::OR => TokenKind::OR,
            Token::ASSIGN => TokenKind::ASSIGN,
            Token::FUNC => TokenKind::FUNC,
            Token::LET => TokenKind::LET,
            Token::IF => TokenKind::IF,
            Token::ELSE => TokenKind::ELSE,
            Token::THEN => TokenKind::THEN,
            Token::WHILE => TokenKind::WHILE,
            Token::PRINT => TokenKind::PRINT,
            Token::ID(_) => TokenKind::ID,
            Token::TYPE_INT32 => TokenKind::TYPE_INT32,
            Token::TYPE_FLT32 => TokenKind::TYPE_FLT32,
            Token::TYPE_CHAR => TokenKind::TYPE_CHAR,
            Token::TYPE_STRING => TokenKind::TYPE_STRING,
            Token::TYPE_BOOL => TokenKind::TYPE_BOOL,
            Token::LIT_INT32(_) => TokenKind::LIT_INT32,
            Token::LIT_FLT32(_) => TokenKind::LIT_FLT32,
            Token::LIT_CHAR(_) => TokenKind::LIT_CHAR,
            Token::LIT_STRING(_) => TokenKind::LIT_STRING,
            Token::EOI => TokenKind::EOI,
            Token::RETURN => TokenKind::RETURN,
        }
    }
}

impl View for Token {
    type V = TokenView;

    open spec fn view(&self) -> TokenView {
        TokenView { kind: self.spec_kind(), payload: self.spec_payload() }
    }
}

impl Clone for Token {
    fn clone(&self) -> (copy: Self)
        ensures
            copy@ == self@,
    {
        match self {
            Token::PARENS_L => Token::PARENS_L,
            Token::PARENS_R => Token::PARENS_R,
            Token::BRACKET_L => Token::BRACKET_L,
            Token::BRACKET_R => Token::BRACKET_R,
            Token::BRACE_L => Token::BRACE_L,
            Token::BRACE_R => Token::BRACE_R,
            Token::POINT => Token::POINT,
            Token::COMMA => Token::COMMA,
            Token::COLON => Token::COLON,
            Token::SEMICOLON => Token::SEMICOLON,
            Token::ARROW_R => Token::ARROW_R,
            Token::ADD => Token::ADD,
            Token::SUB => Token::SUB,
            Token::MUL => Token::MUL,
            Token::DIV => Token::DIV,
            Token::EQ => Token::EQ,
            Token::LT => Token::LT,
            Token::GT => Token::GT,
            Token::NEQ => Token::NEQ,
            Token::NLT => Token::NLT,
            Token::NGT => Token::NGT,
            Token::NOT => Token::NOT,
            Token::AND => Token::AND,
            Token::OR => Token::OR,
            Token::ASSIGN => Token::ASSIGN,
            Token::FUNC => Token::FUNC,
            Token::LET => Token::LET,
            Token::IF => Token::IF,
            Token::ELSE => Token::ELSE,
            Token::THEN => Token::THEN,
            Token::WHILE => Token::WHILE,
            Token::PRINT => Token::PRINT,
            Token::ID(name) => Token::ID(name.clone()),
            Token::TYPE_INT32 => Token::TYPE_INT32,
            Token::TYPE_FLT32 => Token::TYPE_FLT32,
            Token::TYPE_CHAR => Token::TYPE_CHAR,
            Token::TYPE_STRING => Token::TYPE_STRING,
            Token::TYPE_BOOL => Token::TYPE_BOOL,
            Token::LIT_INT32(value) => Token::LIT_INT32(*value),
            Token::LIT_FLT32(bits) => Token::LIT_FLT32(*bits),
            Token::LIT_CHAR(c) => Token::LIT_CHAR(*c),
            Token::LIT_STRING(text) => Token::LIT_STRING(text.clone()),
            Token::EOI => Token::EOI,
            Token::RETURN => Token::RETURN,
        }
    }
}

/// Equality of tokens compares kinds only, so that a parser can ask for "an
/// identifier" without naming one. [`Token::same`] compares payloads too.
impl PartialEq for Token {
    fn eq(&self, other: &Self) -> (equal: bool) {
        self.kind() == other.kind()
    }
}

impl Eq for Token {
}

impl vstd::std_specs::cmp::PartialEqSpecImpl for Token {
    open spec fn obeys_eq_spec() -> bool {
        true
    }

    open spec fn eq_spec(&self, other: &Self) -> bool {
        self.spec_kind() == other.spec_kind()
    }
}

impl Token {
    /// An identifier token with an empty name, for comparisons by kind.
    pub fn id() -> (token: Token)
        ensures
            token@ == (TokenView { kind: TokenKind::ID, payload: Payload::Text(Seq::empty()) }),
    {
        Token::ID(String::new())
    }

    /// An integer literal token with value zero, for comparisons by kind.
    pub fn lit_int32() -> (token: Token)
        ensures
            token@ == (TokenView { kind: TokenKind::LIT_INT32, payload: Payload::Int(0) }),
    {
        Token::LIT_INT32(0)
    }

    /// A float literal token with value zero (all bits clear), for comparisons by kind.
    pub fn lit_flt32() -> (token: Token)
        ensures
            token@ == (TokenView { kind: TokenKind::LIT_FLT32, payload: Payload::Bits(0) }),
    {
        Token::LIT_FLT32(0)
    }

    /// A character literal token holding NUL, for comparisons by kind.
    pub fn lit_char() -> (token: Token)
        ensures
            token@ == (TokenView { kind: TokenKind::LIT_CHAR, payload: Payload::Char('\0') }),
    {
        Token::LIT_CHAR('\0')
    }

    /// A string literal token with empty text, for comparisons by kind.
    pub fn lit_string() -> (token: Token)
        ensures
            token@ == (TokenView { kind: TokenKind::LIT_STRING, payload: Payload::Text(Seq::empty()) }),
    {
        Token::LIT_STRING(String::new())
    }

    /// Full structural equality: the same kind and the same payload.
    pub fn same(&self, other: &Token) -> (equal: bool)
        ensures
            equal == (self@ == other@),
    {
        match self {
            Token::ID(a) => match other {
                Token::ID(b) => *a == *b,
                _ => false,
            },
            Token::LIT_STRING(a) => match other {
                Token::LIT_STRING(b) => *a == *b,
                _ => false,
            },
            Token::LIT_INT32(a) => match other {
                Token::LIT_INT32(b) => *a == *b,
                _ => false,
            },
            Token::LIT_FLT32(a) => match other {
                Token::LIT_FLT32(b) => *a == *b,
                _ => false,
            },
            Token::LIT_CHAR(a) => match other {
                Token::LIT_CHAR(b) => *a == *b,
                _ => false,
            },
            _ => self.kind() == other.kind(),
        }
    }
}

impl TokenKind {
    /// The name of this kind, as it is written in messages and tree labels.
    pub open spec fn spec_name(self) -> Seq<char> {
        match self {
            TokenKind::PARENS_L => "PARENS_L"@,
            TokenKind::PARENS_R => "PARENS_R"@,
            TokenKind::BRACKET_L => "BRACKET_L"@,
            TokenKind::BRACKET_R => "BRACKET_R"@,
            TokenKind::BRACE_L => "BRACE_L"@,
            TokenKind::BRACE_R => "BRACE_R"@,
            TokenKind::POINT => "POINT"@,
            TokenKind::COMMA => "COMMA"@,
            TokenKind::COLON => "COLON"@,
            TokenKind::SEMICOLON => "SEMICOLON"@,
            TokenKind::ARROW_R => "ARROW_R"@,
            TokenKind::ADD => "ADD"@,
            TokenKind::SUB => "SUB"@,
            TokenKind::MUL => "MUL"@,
            TokenKind::DIV => "DIV"@,
            TokenKind::EQ => "EQ"@,
            TokenKind::LT => "LT"@,
            TokenKind::GT => "GT"@,
            TokenKind::NEQ => "NEQ"@,
            TokenKind::NLT => "NLT"@,
            TokenKind::NGT => "NGT"@,
            TokenKind::NOT => "NOT"@,
            TokenKind::AND => "AND"@,
            TokenKind::OR => "OR"@,
            TokenKind::ASSIGN => "ASSIGN"@,
            TokenKind::FUNC => "FUNC"@,
            TokenKind::LET => "LET"@,
            TokenKind::IF => "IF"@,
            TokenKind::ELSE => "ELSE"@,
            TokenKind::THEN => "THEN"@,
            TokenKind::WHILE => "WHILE"@,
            TokenKind::PRINT => "PRINT"@,
            TokenKind::ID => "ID"@,
            TokenKind::TYPE_INT32 => "TYPE_INT32"@,
            TokenKind::TYPE_FLT32 => "TYPE_FLT32"@,
            TokenKind::TYPE_CHAR => "TYPE_CHAR"@,
            TokenKind::TYPE_STRING => "TYPE_STRING"@,
            TokenKind::TYPE_BOOL => "TYPE_BOOL"@,
            TokenKind::LIT_INT32 => "LIT_INT32"@,
            TokenKind::LIT_FLT32 => "LIT_FLT32"@,
            TokenKind::LIT_CHAR => "LIT_CHAR"@,
            TokenKind::LIT_STRING => "LIT_STRING"@,
            TokenKind::EOI => "EOI"@,
            TokenKind::RETURN => "RETURN"@,
        }
    }

    /// The name of this kind, as it is written in messages and tree labels.
    pub fn name(self) -> (text: &'static str)
        ensures
            text@ == self.spec_name(),
    {
        match self {
            TokenKind::PARENS_L => "PARENS_L",
            TokenKind::PARENS_R => "PARENS_R",
            TokenKind::BRACKET_L => "BRACKET_L",
            TokenKind::BRACKET_R => "BRACKET_R",
            TokenKind::BRACE_L => "BRACE_L",
            TokenKind::BRACE_R => "BRACE_R",
            TokenKind::POINT => "POINT",
            TokenKind::COMMA => "COMMA",
            TokenKind::COLON => "COLON",
            TokenKind::SEMICOLON => "SEMICOLON",
            TokenKind::ARROW_R => "ARROW_R",
            TokenKind::ADD => "ADD",
            TokenKind::SUB => "SUB",
            TokenKind::MUL => "MUL",
            TokenKind::DIV => "DIV",
            TokenKind::EQ => "EQ",
            TokenKind::LT => "LT",
            TokenKind::GT => "GT",
            TokenKind::NEQ => "NEQ",
            TokenKind::NLT => "NLT",
            TokenKind::NGT => "NGT",
            TokenKind::NOT => "NOT",
            TokenKind::AND => "AND",
            TokenKind::OR => "OR",
            TokenKind::ASSIGN => "ASSIGN",
            TokenKind::FUNC => "FUNC",
            TokenKind::LET => "LET",
            TokenKind::IF => "IF",
            TokenKind::ELSE => "ELSE",
            TokenKind::THEN => "THEN",
            TokenKind::WHILE => "WHILE",
            TokenKind::PRINT => "PRINT",
            TokenKind::ID => "ID",
            TokenKind::TYPE_INT32 => "TYPE_INT32",
            TokenKind::TYPE_FLT32 => "TYPE_FLT32",
            TokenKind::TYPE_CHAR => "TYPE_CHAR",
            TokenKind::TYPE_STRING => "TYPE_STRING",
            TokenKind::TYPE_BOOL => "TYPE_BOOL",
            TokenKind::LIT_INT32 => "LIT_INT32",
            TokenKind::LIT_FLT32 => "LIT_FLT32",
            TokenKind::LIT_CHAR => "LIT_CHAR",
            TokenKind::LIT_STRING => "LIT_STRING",
            TokenKind::EOI => "EOI",
            TokenKind::RETURN => "RETURN",
        }
    }
}

} // verus!
