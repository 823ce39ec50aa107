use vstd::prelude::*;
use crate::text::{string_from_str, push_str, push_dec, push_signed, dec_digits, dec_signed};

verus! {

/// The kinds of token, with the text that identifiers, string literals and
/// float literals carry held as `S`. A float literal carries its digits as
/// written; its numeric value is computed where floating point is available.
#[derive(Debug, Clone, PartialEq)]
pub enum TokenKind<S> {
    LeftParen,
    RightParen,
    LeftBrace,
    RightBrace,
    Comma,
    Dot,
    Minus,
    Plus,
    Semicolon,
    Slash,
    Star,
    Colon,
    Arrow,
    Bang,
    BangEqual,
    Equal,
    EqualEqual,
    Greater,
    GreaterEqual,
    Less,
    LessEqual,
    Identifier(S),
    Str(S),
    Integer(i32),
    Float(S),
    And,
    Class,
    Else,
    False,
    Fun,
    For,
    If,
    Or,
    Return,
    Super,
    This,
    True,
    Let,
    While,
    Eof,
}

/// The kind of a token, with its text held in strings.
pub type TokenType = TokenKind<String>;

/// The kind of a token, with its text seen as characters.
pub type TokenTypeView = TokenKind<Seq<char>>;

impl View for TokenKind<String> {
    type V = TokenKind<Seq<char>>;

    open spec fn view(&self) -> TokenKind<Seq<char>> {
        match self {
            TokenKind::LeftParen => TokenKind::LeftParen,
            TokenKind::RightParen => TokenKind::RightParen,
            TokenKind::LeftBrace => TokenKind::LeftBrace,
            TokenKind::RightBrace => TokenKind::RightBrace,
            TokenKind::Comma => TokenKind::Comma,
            TokenKind::Dot => TokenKind::Dot,
            TokenKind::Minus => TokenKind::Minus,
            TokenKind::Plus => TokenKind::Plus,
            TokenKind::Semicolon => TokenKind::Semicolon,
            TokenKind::Slash => TokenKind::Slash,
            TokenKind::Star => TokenKind::Star,
            TokenKind::Colon => TokenKind::Colon,
            TokenKind::Arrow => TokenKind::Arrow,
            TokenKind::Bang => TokenKind::Bang,
            TokenKind::BangEqual => TokenKind::BangEqual,
            TokenKind::Equal => TokenKind::Equal,
            TokenKind::EqualEqual => TokenKind::EqualEqual,
            TokenKind::Greater => TokenKind::Greater,
            TokenKind::GreaterEqual => TokenKind::GreaterEqual,
            TokenKind::Less => TokenKind::Less,
            TokenKind::LessEqual => TokenKind::LessEqual,
            TokenKind::Identifier(s) => TokenKind::Identifier(s@),
            TokenKind::Str(s) => TokenKind::Str(s@),
            TokenKind::Integer(i) => TokenKind::Integer(*i),
            TokenKind::Float(s) => TokenKind::Float(s@),
            TokenKind::And => TokenKind::And,
            TokenKind::Class => TokenKind::Class,
            TokenKind::Else => TokenKind::Else,
            TokenKind::False => TokenKind::False,
            TokenKind::Fun => TokenKind::Fun,
            TokenKind::For => TokenKind::For,
            TokenKind::If => TokenKind::If,
            TokenKind::Or => TokenKind::Or,
            TokenKind::Return => TokenKind::Return,
            TokenKind::Super => TokenKind::Super,
            TokenKind::This => TokenKind::This,
            TokenKind::True => TokenKind::True,
            TokenKind::Let => TokenKind::Let,
            TokenKind::While => TokenKind::While,
            TokenKind::Eof => TokenKind::Eof,
        }
    }
}

impl TokenKind<String> {
    /// Whether the token is a literal: an identifier, a string, an integer, a float, `true` or `false`.
    pub fn is_literal(&self) -> (r: bool)
        ensures
            r == (self matches TokenKind::Identifier(_) || self matches TokenKind::Str(_)
                || self matches TokenKind::Integer(_) || self matches TokenKind::Float(_)
                || self matches TokenKind::True || self matches TokenKind::False),
    {
        match self {
            TokenKind::Identifier(_) => true,
            TokenKind::Str(_) => true,
            TokenKind::Integer(_) => true,
            TokenKind::Float(_) => true,
            TokenKind::True => true,
            TokenKind::False => true,
            _ => false,
        }
    }

    /// Whether the token is an identifier.
    pub fn is_ident(&self) -> (r: bool)
        ensures
            r == self matches TokenKind::Identifier(_),
    {
        match self {
            TokenKind::Identifier(_) => true,
            _ => false,
        }
    }
}

} // verus!

verus! {

/// Where a token stands in the source: its line, and the positions (in
/// characters) where it begins and ends.
#[derive(Debug, Clone, Copy, PartialEq, Eq)]
pub struct LocationData {
    pub line_num: usize,
    pub tok_begin: usize,
    pub tok_end: usize,
}

/// A token: its location and its kind.
#[derive(Debug, Clone, PartialEq)]
pub struct Token(pub LocationData, pub TokenType);

/// A token seen mathematically.
pub struct TokenView {
    pub line: nat,
    pub begin: nat,
    pub end: nat,
    pub kind: TokenTypeView,
}

impl View for Token {
    type V = TokenView;

    open spec fn view(&self) -> TokenView {
        TokenView {
            line: self.0.line_num as nat,
            begin: self.0.tok_begin as nat,
            end: self.0.tok_end as nat,
            kind: self.1@,
        }
    }
}

impl Token {
    pub fn new(line_num: usize, begin: usize, end: usize, typ: TokenType) -> (r: Token)
        ensures
            r@ == (TokenView { line: line_num as nat, begin: begin as nat, end: end as nat, kind: typ@ }),
    {
        Token(LocationData { line_num, tok_begin: begin, tok_end: end }, typ)
    }

    pub fn line_num(&self) -> (r: usize)
        ensures
            r == self@.line,
    {
        self.0.line_num
    }

    pub fn char_loc(&self) -> (r: usize)
        ensures
            r == self@.begin,
    {
        self.0.tok_begin
    }

    /// A copy of the kind of the token.
    pub fn ty(&self) -> (r: TokenType)
        ensures
            r@ == self@.kind,
    {
        self.1.duplicate()
    }

    /// A copy of the token.
    pub fn duplicate(&self) -> (r: Token)
        ensures
            r == *self,
    {
        Token(self.0, self.1.duplicate())
    }
}

/// A number for each kind of token, the same for two tokens exactly when they
/// are of the same kind (whatever text they carry).
pub open spec fn kind_tag<S>(k: TokenKind<S>) -> u8 {
    match k {
        TokenKind::LeftParen => 0,
        TokenKind::RightParen => 1,
        TokenKind::LeftBrace => 2,
        TokenKind::RightBrace => 3,
        TokenKind::Comma => 4,
        TokenKind::Dot => 5,
        TokenKind::Minus => 6,
        TokenKind::Plus => 7,
        TokenKind::Semicolon => 8,
        TokenKind::Slash => 9,
        TokenKind::Star => 10,
        TokenKind::Colon => 11,
        TokenKind::Arrow => 12,
        TokenKind::Bang => 13,
        TokenKind::BangEqual => 14,
        TokenKind::Equal => 15,
        TokenKind::EqualEqual => 16,
        TokenKind::Greater => 17,
        TokenKind::GreaterEqual => 18,
        TokenKind::Less => 19,
        TokenKind::LessEqual => 20,
        TokenKind::Identifier(_) => 21,
        TokenKind::Str(_) => 22,
        TokenKind::Integer(_) => 23,
        TokenKind::Float(_) => 24,
        TokenKind::And => 25,
        TokenKind::Class => 26,
        TokenKind::Else => 27,
        TokenKind::False => 28,
        TokenKind::Fun => 29,
        TokenKind::For => 30,
        TokenKind::If => 31,
        TokenKind::Or => 32,
        TokenKind::Return => 33,
        TokenKind::Super => 34,
        TokenKind::This => 35,
        TokenKind::True => 36,
        TokenKind::Let => 37,
        TokenKind::While => 38,
        TokenKind::Eof => 39,
    }
}

impl TokenKind<String> {
    /// The number that identifies the kind of this token.
    pub fn tag(&self) -> (r: u8)
        ensures
            r == kind_tag(*self),
    {
        match self {
            TokenKind::LeftParen => 0,
            TokenKind::RightParen => 1,
            TokenKind::LeftBrace => 2,
            TokenKind::RightBrace => 3,
            TokenKind::Comma => 4,
            TokenKind::Dot => 5,
            TokenKind::Minus => 6,
            TokenKind::Plus => 7,
            TokenKind::Semicolon => 8,
            TokenKind::Slash => 9,
            TokenKind::Star => 10,
            TokenKind::Colon => 11,
            TokenKind::Arrow => 12,
            TokenKind::Bang => 13,
            TokenKind::BangEqual => 14,
            TokenKind::Equal => 15,
            TokenKind::EqualEqual => 16,
            TokenKind::Greater => 17,
            TokenKind::GreaterEqual => 18,
            TokenKind::Less => 19,
            TokenKind::LessEqual => 20,
            TokenKind::Identifier(_) => 21,
            TokenKind::Str(_) => 22,
            TokenKind::Integer(_) => 23,
            TokenKind::Float(_) => 24,
            TokenKind::And => 25,
            TokenKind::Class => 26,
            TokenKind::Else => 27,
            TokenKind::False => 28,
            TokenKind::Fun => 29,
            TokenKind::For => 30,
            TokenKind::If => 31,
            TokenKind::Or => 32,
            TokenKind::Return => 33,
            TokenKind::Super => 34,
            TokenKind::This => 35,
            TokenKind::True => 36,
            TokenKind::Let => 37,
            TokenKind::While => 38,
            TokenKind::Eof => 39,
        }
    }

    /// Whether the two token kinds are the same, text included.
    pub fn same(&self, other: &TokenType) -> (r: bool)
        ensures
            r == (self@ == other@),
    {
        match (self, other) {
            (TokenKind::Identifier(a), TokenKind::Identifier(b)) => *a == *b,
            (TokenKind::Str(a), TokenKind::Str(b)) => *a == *b,
            (TokenKind::Float(a), TokenKind::Float(b)) => *a == *b,
            (TokenKind::Integer(a), TokenKind::Integer(b)) => *a == *b,
            _ => {
                let r = self.tag() == other.tag();
                assert(r == (self@ == other@)) by {
                    if r {
                        assert(kind_tag(*self) == kind_tag(*other));
                    }
                }
                r
            },
        }
    }

    /// A copy of the token kind.
    pub fn duplicate(&self) -> (r: TokenType)
        ensures
            r == *self,
    {
        match self {
            TokenKind::Identifier(s) => TokenKind::Identifier(s.clone()),
            TokenKind::Str(s) => TokenKind::Str(s.clone()),
            TokenKind::Float(s) => TokenKind::Float(s.clone()),
            TokenKind::Integer(i) => TokenKind::Integer(*i),
            TokenKind::LeftParen => TokenKind::LeftParen,
            TokenKind::RightParen => TokenKind::RightParen,
            TokenKind::LeftBrace => TokenKind::LeftBrace,
            TokenKind::RightBrace => TokenKind::RightBrace,
            TokenKind::Comma => TokenKind::Comma,
            TokenKind::Dot => TokenKind::Dot,
            TokenKind::Minus => TokenKind::Minus,
            TokenKind::Plus => TokenKind::Plus,
            TokenKind::Semicolon => TokenKind::Semicolon,
            TokenKind::Slash => TokenKind::Slash,
            TokenKind::Star => TokenKind::Star,
            TokenKind::Colon => TokenKind::Colon,
            TokenKind::Arrow => TokenKind::Arrow,
            TokenKind::Bang => TokenKind::Bang,
            TokenKind::BangEqual => TokenKind::BangEqual,
            TokenKind::Equal => TokenKind::Equal,
            TokenKind::EqualEqual => TokenKind::EqualEqual,
            TokenKind::Greater => TokenKind::Greater,
            TokenKind::GreaterEqual => TokenKind::GreaterEqual,
            TokenKind::Less => TokenKind::Less,
            TokenKind::LessEqual => TokenKind::LessEqual,
            TokenKind::And => TokenKind::And,
            TokenKind::Class => TokenKind::Class,
            TokenKind::Else => TokenKind::Else,
            TokenKind::False => TokenKind::False,
            TokenKind::Fun => TokenKind::Fun,
            TokenKind::For => TokenKind::For,
            TokenKind::If => TokenKind::If,
            TokenKind::Or => TokenKind::Or,
            TokenKind::Return => TokenKind::Return,
            TokenKind::Super => TokenKind::Super,
            TokenKind::This => TokenKind::This,
            TokenKind::True => TokenKind::True,
            TokenKind::Let => TokenKind::Let,
            TokenKind::While => TokenKind::While,
            TokenKind::Eof => TokenKind::Eof,
        }
    }
}


/// How a kind of token is written in messages.
pub open spec fn kind_text(k: TokenTypeView) -> Seq<char> {
    match k {
        TokenKind::LeftParen => "("@,
        TokenKind::RightParen => ")"@,
        TokenKind::LeftBrace => "{"@,
        TokenKind::RightBrace => "}"@,
        TokenKind::Comma => ","@,
        TokenKind::Dot => "."@,
        TokenKind::Minus => "-"@,
        TokenKind::Plus => "+"@,
        TokenKind::Semicolon => ";"@,
        TokenKind::Slash => "/"@,
        TokenKind::Star => "*"@,
        TokenKind::Colon => ":"@,
        TokenKind::Arrow => "->"@,
        TokenKind::Bang => "!"@,
        TokenKind::BangEqual => "!="@,
        TokenKind::Equal => "="@,
        TokenKind::EqualEqual => "=="@,
        TokenKind::Greater => ">"@,
        TokenKind::GreaterEqual => ">="@,
        TokenKind::Less => "<"@,
        TokenKind::LessEqual => "<="@,
        TokenKind::And => "&&"@,
        TokenKind::Class => "class"@,
        TokenKind::Else => "else"@,
        TokenKind::False => "false"@,
        TokenKind::Fun => "fun"@,
        TokenKind::For => "for"@,
        TokenKind::If => "if"@,
        TokenKind::Or => "||"@,
        TokenKind::Return => "return"@,
        TokenKind::Super => "super"@,
        TokenKind::This => "this"@,
        TokenKind::True => "true"@,
        TokenKind::Let => "let"@,
        TokenKind::While => "while"@,
        TokenKind::Eof => "EOF"@,
        TokenKind::Identifier(id) => "ID: "@ + id,
        TokenKind::Str(st) => "String: "@ + st,
        TokenKind::Integer(i) => "Int: "@ + dec_signed(i as int),
        TokenKind::Float(fl) => "Float: "@ + fl + ","@,
    }
}

/// How a token is written in messages: its kind, then where it stands.
pub open spec fn token_text(t: TokenView) -> Seq<char> {
    kind_text(t.kind) + " - Located at line "@ + dec_digits(t.line) + ", char "@ + dec_digits(t.begin)
        + " ending "@ + dec_digits(t.end)
}

impl TokenKind<String> {
    /// The kind of token as messages write it.
    pub fn describe(&self) -> (r: String)
        ensures
            r@ == kind_text(self@),
    {
        match self {
            TokenKind::LeftParen => string_from_str("("),
            TokenKind::RightParen => string_from_str(")"),
            TokenKind::LeftBrace => string_from_str("{"),
            TokenKind::RightBrace => string_from_str("}"),
            TokenKind::Comma => string_from_str(","),
            TokenKind::Dot => string_from_str("."),
            TokenKind::Minus => string_from_str("-"),
            TokenKind::Plus => string_from_str("+"),
            TokenKind::Semicolon => string_from_str(";"),
            TokenKind::Slash => string_from_str("/"),
            TokenKind::Star => string_from_str("*"),
            TokenKind::Colon => string_from_str(":"),
            TokenKind::Arrow => string_from_str("->"),
            TokenKind::Bang => string_from_str("!"),
            TokenKind::BangEqual => string_from_str("!="),
            TokenKind::Equal => string_from_str("="),
            TokenKind::EqualEqual => string_from_str("=="),
            TokenKind::Greater => string_from_str(">"),
            TokenKind::GreaterEqual => string_from_str(">="),
            TokenKind::Less => string_from_str("<"),
            TokenKind::LessEqual => string_from_str("<="),
            TokenKind::And => string_from_str("&&"),
            TokenKind::Class => string_from_str("class"),
            TokenKind::Else => string_from_str("else"),
            TokenKind::False => string_from_str("false"),
            TokenKind::Fun => string_from_str("fun"),
            TokenKind::For => string_from_str("for"),
            TokenKind::If => string_from_str("if"),
            TokenKind::Or => string_from_str("||"),
            TokenKind::Return => string_from_str("return"),
            TokenKind::Super => string_from_str("super"),
            TokenKind::This => string_from_str("this"),
            TokenKind::True => string_from_str("true"),
            TokenKind::Let => string_from_str("let"),
            TokenKind::While => string_from_str("while"),
            TokenKind::Eof => string_from_str("EOF"),
            TokenKind::Identifier(id) => {
                let mut s = string_from_str("ID: ");
                push_str(&mut s, id.as_str());
                s
            },
            TokenKind::Str(st) => {
                let mut s = string_from_str("String: ");
                push_str(&mut s, st.as_str());
                s
            },
            TokenKind::Integer(i) => {
                let mut s = string_from_str("Int: ");
                push_signed(&mut s, *i as i64);
                s
            },
            TokenKind::Float(fl) => {
                let mut s = string_from_str("Float: ");
                push_str(&mut s, fl.as_str());
                push_str(&mut s, ",");
                s
            },
        }
    }
}

impl Token {
    /// The token as messages write it.
    pub fn describe(&self) -> (r: String)
        ensures
            r@ == token_text(self@),
    {
        let mut s = self.1.describe();
        push_str(&mut s, " - Located at line ");
        push_dec(&mut s, self.0.line_num as u64);
        push_str(&mut s, ", char ");
        push_dec(&mut s, self.0.tok_begin as u64);
        push_str(&mut s, " ending ");
        push_dec(&mut s, self.0.tok_end as u64);
        s
    }
}
} // verus!
