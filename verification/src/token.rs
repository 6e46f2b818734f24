//! The token model: the closed set of lexical units.

use crate::text::{eco_as_str, eco_chars, eco_clone};
use ecow::EcoString;
use vstd::prelude::*;
use vstd::string::StringExecFns;

verus! {

/// Which lexical unit a token is, without its text.
#[derive(Clone, Copy, Debug, PartialEq, Eq, Structural)]
pub enum TokenKind {
    Illegal,
    Name,
    Int,
    Float,
    String,
    LeftParen,
    RightParen,
    LeftSquare,
    RightSquare,
    LeftBrace,
    RightBrace,
    Plus,
    Minus,
    Star,
    Slash,
    Less,
    Greater,
    LessEqual,
    GreaterEqual,
    Percent,
    Colon,
    SemiColon,
    Comma,
    Bang,
    Equal,
    EqualEqual,
    NotEqual,
    AmperAmper,
    Dot,
    EndOfFile,
    Fun,
    Let,
    Struct,
    Enum,
    Return,
    True,
    False,
    If,
    Else,
}

/// A lexical unit. The four literal-carrying variants hold the exact source
/// text, unconverted; no position is recorded.
#[derive(Debug, PartialEq)]
pub enum Token {
    Illegal,
    Name { name: EcoString },
    Int { value: EcoString },
    Float { value: EcoString },
    String { value: EcoString },
    LeftParen,
    RightParen,
    LeftSquare,
    RightSquare,
    LeftBrace,
    RightBrace,
    Plus,
    Minus,
    Star,
    Slash,
    Less,
    Greater,
    LessEqual,
    GreaterEqual,
    Percent,
    Colon,
    SemiColon,
    Comma,
    Bang,
    Equal,
    EqualEqual,
    NotEqual,
    AmperAmper,
    Dot,
    EndOfFile,
    Fun,
    Let,
    Struct,
    Enum,
    Return,
    True,
    False,
    If,
    Else,
}

/// The mathematical value of a token: its kind and, for the four
/// literal-carrying kinds, its text. Every other kind has the empty text.
pub struct TokenView {
    pub kind: TokenKind,
    pub text: Seq<char>,
}

impl TokenKind {
    /// Whether tokens of this kind hold source text of their own.
    pub open spec fn carries_text(self) -> bool {
        self == TokenKind::Name || self == TokenKind::Int || self == TokenKind::Float || self
            == TokenKind::String
    }

    /// Whether this kind is a bracket, an operator or a punctuation mark.
    pub open spec fn is_symbol(self) -> bool {
        match self {
            TokenKind::LeftParen
            | TokenKind::RightParen
            | TokenKind::LeftSquare
            | TokenKind::RightSquare
            | TokenKind::LeftBrace
            | TokenKind::RightBrace
            | TokenKind::Plus
            | TokenKind::Minus
            | TokenKind::Star
            | TokenKind::Slash
            | TokenKind::Less
            | TokenKind::Greater
            | TokenKind::LessEqual
            | TokenKind::GreaterEqual
            | TokenKind::Percent
            | TokenKind::Colon
            | TokenKind::SemiColon
            | TokenKind::Comma
            | TokenKind::Bang
            | TokenKind::Equal
            | TokenKind::EqualEqual
            | TokenKind::NotEqual
            | TokenKind::AmperAmper
            | TokenKind::Dot => true,
            _ => false,
        }
    }

    /// Whether this kind is a reserved word.
    pub open spec fn is_keyword(self) -> bool {
        match self {
            TokenKind::Fun
            | TokenKind::Let
            | TokenKind::Struct
            | TokenKind::Enum
            | TokenKind::Return
            | TokenKind::True
            | TokenKind::False
            | TokenKind::If
            | TokenKind::Else => true,
            _ => false,
        }
    }

    /// The canonical surface spelling of a kind. The literal-carrying kinds
    /// have none of their own and give the empty text; the two sentinels
    /// are spelled by a word that no source text lexes to them.
    pub open spec fn spelling(self) -> Seq<char> {
        match self {
            TokenKind::Illegal => "illegal"@,
            TokenKind::Name | TokenKind::Int | TokenKind::Float | TokenKind::String => ""@,
            TokenKind::LeftParen => "("@,
            TokenKind::RightParen => ")"@,
            TokenKind::LeftSquare => "["@,
            TokenKind::RightSquare => "]"@,
            TokenKind::LeftBrace => "{"@,
            TokenKind::RightBrace => "}"@,
            TokenKind::Plus => "+"@,
            TokenKind::Minus => "-"@,
            TokenKind::Star => "*"@,
            TokenKind::Slash => "/"@,
            TokenKind::Less => "<"@,
            TokenKind::Greater => ">"@,
            TokenKind::LessEqual => "<="@,
            TokenKind::GreaterEqual => ">="@,
            TokenKind::Percent => "%"@,
            TokenKind::Colon => ":"@,
            TokenKind::SemiColon => ";"@,
            TokenKind::Comma => ","@,
            TokenKind::Bang => "!"@,
            TokenKind::Equal => "="@,
            TokenKind::EqualEqual => "=="@,
            TokenKind::NotEqual => "!="@,
            TokenKind::AmperAmper => "&&"@,
            TokenKind::Dot => "."@,
            TokenKind::EndOfFile => "EOF"@,
            TokenKind::Fun => "fun"@,
            TokenKind::Let => "let"@,
            TokenKind::Struct => "struct"@,
            TokenKind::Enum => "enum"@,
            TokenKind::Return => "return"@,
            TokenKind::True => "true"@,
            TokenKind::False => "false"@,
            TokenKind::If => "if"@,
            TokenKind::Else => "else"@,
        }
    }

    /// The canonical surface spelling, as a string slice.
    pub fn as_str(self) -> (s: &'static str)
        ensures
            s@ == self.spelling(),
    {
        match self {
            TokenKind::Illegal => "illegal",
            TokenKind::Name | TokenKind::Int | TokenKind::Float | TokenKind::String => "",
            TokenKind::LeftParen => "(",
            TokenKind::RightParen => ")",
            TokenKind::LeftSquare => "[",
            TokenKind::RightSquare => "]",
            TokenKind::LeftBrace => "{",
            TokenKind::RightBrace => "}",
            TokenKind::Plus => "+",
            TokenKind::Minus => "-",
            TokenKind::Star => "*",
            TokenKind::Slash => "/",
            TokenKind::Less => "<",
            TokenKind::Greater => ">",
            TokenKind::LessEqual => "<=",
            TokenKind::GreaterEqual => ">=",
            TokenKind::Percent => "%",
            TokenKind::Colon => ":",
            TokenKind::SemiColon => ";",
            TokenKind::Comma => ",",
            TokenKind::Bang => "!",
            TokenKind::Equal => "=",
            TokenKind::EqualEqual => "==",
            TokenKind::NotEqual => "!=",
            TokenKind::AmperAmper => "&&",
            TokenKind::Dot => ".",
            TokenKind::EndOfFile => "EOF",
            TokenKind::Fun => "fun",
            TokenKind::Let => "let",
            TokenKind::Struct => "struct",
            TokenKind::Enum => "enum",
            TokenKind::Return => "return",
            TokenKind::True => "true",
            TokenKind::False => "false",
            TokenKind::If => "if",
            TokenKind::Else => "else",
        }
    }
}

impl TokenView {
    /// The view of a token that holds no text.
    pub open spec fn plain(kind: TokenKind) -> TokenView {
        TokenView { kind, text: Seq::empty() }
    }

    /// The surface text of a token: its own text where it carries one, the
    /// spelling of its kind otherwise.
    pub open spec fn lexeme(self) -> Seq<char> {
        if self.kind.carries_text() {
            self.text
        } else {
            self.kind.spelling()
        }
    }

    /// What diagnostics show for a token: its surface text between two
    /// backticks.
    pub open spec fn display(self) -> Seq<char> {
        "`"@ + self.lexeme() + "`"@
    }
}

impl View for Token {
    type V = TokenView;

    open spec fn view(&self) -> TokenView {
        match *self {
            Token::Illegal => TokenView::plain(TokenKind::Illegal),
            Token::Name { name } => TokenView { kind: TokenKind::Name, text: eco_chars(name) },
            Token::Int { value } => TokenView { kind: TokenKind::Int, text: eco_chars(value) },
            Token::Float { value } => TokenView { kind: TokenKind::Float, text: eco_chars(value) },
            Token::String { value } => TokenView {
                kind: TokenKind::String,
                text: eco_chars(value),
            },
            Token::LeftParen => TokenView::plain(TokenKind::LeftParen),
            Token::RightParen => TokenView::plain(TokenKind::RightParen),
            Token::LeftSquare => TokenView::plain(TokenKind::LeftSquare),
            Token::RightSquare => TokenView::plain(TokenKind::RightSquare),
            Token::LeftBrace => TokenView::plain(TokenKind::LeftBrace),
            Token::RightBrace => TokenView::plain(TokenKind::RightBrace),
            Token::Plus => TokenView::plain(TokenKind::Plus),
            Token::Minus => TokenView::plain(TokenKind::Minus),
            Token::Star => TokenView::plain(TokenKind::Star),
            Token::Slash => TokenView::plain(TokenKind::Slash),
            Token::Less => TokenView::plain(TokenKind::Less),
            Token::Greater => TokenView::plain(TokenKind::Greater),
            Token::LessEqual => TokenView::plain(TokenKind::LessEqual),
            Token::GreaterEqual => TokenView::plain(TokenKind::GreaterEqual),
            Token::Percent => TokenView::plain(TokenKind::Percent),
            Token::Colon => TokenView::plain(TokenKind::Colon),
            Token::SemiColon => TokenView::plain(TokenKind::SemiColon),
            Token::Comma => TokenView::plain(TokenKind::Comma),
            Token::Bang => TokenView::plain(TokenKind::Bang),
            Token::Equal => TokenView::plain(TokenKind::Equal),
            Token::EqualEqual => TokenView::plain(TokenKind::EqualEqual),
            Token::NotEqual => TokenView::plain(TokenKind::NotEqual),
            Token::AmperAmper => TokenView::plain(TokenKind::AmperAmper),
            Token::Dot => TokenView::plain(TokenKind::Dot),
            Token::EndOfFile => TokenView::plain(TokenKind::EndOfFile),
            Token::Fun => TokenView::plain(TokenKind::Fun),
            Token::Let => TokenView::plain(TokenKind::Let),
            Token::Struct => TokenView::plain(TokenKind::Struct),
            Token::Enum => TokenView::plain(TokenKind::Enum),
            Token::Return => TokenView::plain(TokenKind::Return),
            Token::True => TokenView::plain(TokenKind::True),
            Token::False => TokenView::plain(TokenKind::False),
            Token::If => TokenView::plain(TokenKind::If),
            Token::Else => TokenView::plain(TokenKind::Else),
        }
    }
}

impl Token {
    /// The token of a kind that carries no text.
    pub fn plain(kind: TokenKind) -> (t: Token)
        requires
            !kind.carries_text(),
        ensures
            t@ == TokenView::plain(kind),
    {
        match kind {
            TokenKind::Illegal => Token::Illegal,
            TokenKind::Name | TokenKind::Int | TokenKind::Float | TokenKind::String => {
                Token::Illegal
            },
            TokenKind::LeftParen => Token::LeftParen,
            TokenKind::RightParen => Token::RightParen,
            TokenKind::LeftSquare => Token::LeftSquare,
            TokenKind::RightSquare => Token::RightSquare,
            TokenKind::LeftBrace => Token::LeftBrace,
            TokenKind::RightBrace => Token::RightBrace,
            TokenKind::Plus => Token::Plus,
            TokenKind::Minus => Token::Minus,
            TokenKind::Star => Token::Star,
            TokenKind::Slash => Token::Slash,
            TokenKind::Less => Token::Less,
            TokenKind::Greater => Token::Greater,
            TokenKind::LessEqual => Token::LessEqual,
            TokenKind::GreaterEqual => Token::GreaterEqual,
            TokenKind::Percent => Token::Percent,
            TokenKind::Colon => Token::Colon,
            TokenKind::SemiColon => Token::SemiColon,
            TokenKind::Comma => Token::Comma,
            TokenKind::Bang => Token::Bang,
            TokenKind::Equal => Token::Equal,
            TokenKind::EqualEqual => Token::EqualEqual,
            TokenKind::NotEqual => Token::NotEqual,
            TokenKind::AmperAmper => Token::AmperAmper,
            TokenKind::Dot => Token::Dot,
            TokenKind::EndOfFile => Token::EndOfFile,
            TokenKind::Fun => Token::Fun,
            TokenKind::Let => Token::Let,
            TokenKind::Struct => Token::Struct,
            TokenKind::Enum => Token::Enum,
            TokenKind::Return => Token::Return,
            TokenKind::True => Token::True,
            TokenKind::False => Token::False,
            TokenKind::If => Token::If,
            TokenKind::Else => Token::Else,
        }
    }

    /// The kind of this token.
    pub fn kind(&self) -> (k: TokenKind)
        ensures
            k == self@.kind,
    {
        match self {
            Token::Illegal => TokenKind::Illegal,
            Token::Name { .. } => TokenKind::Name,
            Token::Int { .. } => TokenKind::Int,
            Token::Float { .. } => TokenKind::Float,
            Token::String { .. } => TokenKind::String,
            Token::LeftParen => TokenKind::LeftParen,
            Token::RightParen => TokenKind::RightParen,
            Token::LeftSquare => TokenKind::LeftSquare,
            Token::RightSquare => TokenKind::RightSquare,
            Token::LeftBrace => TokenKind::LeftBrace,
            Token::RightBrace => TokenKind::RightBrace,
            Token::Plus => TokenKind::Plus,
            Token::Minus => TokenKind::Minus,
            Token::Star => TokenKind::Star,
            Token::Slash => TokenKind::Slash,
            Token::Less => TokenKind::Less,
            Token::Greater => TokenKind::Greater,
            Token::LessEqual => TokenKind::LessEqual,
            Token::GreaterEqual => TokenKind::GreaterEqual,
            Token::Percent => TokenKind::Percent,
            Token::Colon => TokenKind::Colon,
            Token::SemiColon => TokenKind::SemiColon,
            Token::Comma => TokenKind::Comma,
            Token::Bang => TokenKind::Bang,
            Token::Equal => TokenKind::Equal,
            Token::EqualEqual => TokenKind::EqualEqual,
            Token::NotEqual => TokenKind::NotEqual,
            Token::AmperAmper => TokenKind::AmperAmper,
            Token::Dot => TokenKind::Dot,
            Token::EndOfFile => TokenKind::EndOfFile,
            Token::Fun => TokenKind::Fun,
            Token::Let => TokenKind::Let,
            Token::Struct => TokenKind::Struct,
            Token::Enum => TokenKind::Enum,
            Token::Return => TokenKind::Return,
            Token::True => TokenKind::True,
            Token::False => TokenKind::False,
            Token::If => TokenKind::If,
            Token::Else => TokenKind::Else,
        }
    }

    /// The text that this token holds: its source text where it carries
    /// one, the empty text otherwise.
    pub fn text(&self) -> (s: &str)
        ensures
            s@ == self@.text,
    {
        match self {
            Token::Name { name } => eco_as_str(name),
            Token::Int { value } | Token::Float { value } | Token::String { value } => eco_as_str(
                value,
            ),
            _ => {
                proof {
                    reveal_strlit("");
                    assert(""@ =~= Seq::<char>::empty());
                }
                ""
            },
        }
    }

    /// The surface text of this token.
    pub fn lexeme(&self) -> (s: &str)
        ensures
            s@ == self@.lexeme(),
    {
        match self {
            Token::Name { name } => eco_as_str(name),
            Token::Int { value } | Token::Float { value } | Token::String { value } => eco_as_str(
                value,
            ),
            _ => self.kind().as_str(),
        }
    }

    /// Renders the token for a diagnostic: its surface text between two
    /// backticks.
    pub fn to_string(&self) -> (s: String)
        ensures
            s@ == self@.display(),
    {
        let mut s = String::from_str("`");
        s.append(self.lexeme());
        s.append("`");
        s
    }
}

impl Clone for Token {
    fn clone(&self) -> (t: Token)
        ensures
            t@ == self@,
    {
        match self {
            Token::Name { name } => Token::Name { name: eco_clone(name) },
            Token::Int { value } => Token::Int { value: eco_clone(value) },
            Token::Float { value } => Token::Float { value: eco_clone(value) },
            Token::String { value } => Token::String { value: eco_clone(value) },
            _ => Token::plain(self.kind()),
        }
    }
}

} // verus!
