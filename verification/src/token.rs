//! The token taxonomy of the language: a closed, tagged union with payloads
//! only on identifiers and integer literals.

use vstd::prelude::*;

verus! {

/// One lexical unit. Fixed symbols and keywords carry no payload; an
/// identifier or an integer literal carries its exact source text.
#[derive(Debug, PartialEq, Eq)]
pub enum Token {
    Illegal,
    Eof,
    Assign,
    Plus,
    Minus,
    Bang,
    Asterisk,
    Slash,
    Lt,
    Gt,
    Eq,
    Neq,
    LParen,
    RParen,
    LBrace,
    RBrace,
    Comma,
    Semicolon,
    Ident(String),
    Int(String),
    Function,
    Let,
    True,
    False,
    If,
    Else,
    Return,
}

/// The mathematical value of a token: the same tags, with payloads abstracted
/// to character sequences. Contracts and laws speak of this type.
pub enum TokenView {
    Illegal,
    Eof,
    Assign,
    Plus,
    Minus,
    Bang,
    Asterisk,
    Slash,
    Lt,
    Gt,
    Eq,
    Neq,
    LParen,
    RParen,
    LBrace,
    RBrace,
    Comma,
    Semicolon,
    Ident(Seq<char>),
    Int(Seq<char>),
    Function,
    Let,
    True,
    False,
    If,
    Else,
    Return,
}

impl View for Token {
    type V = TokenView;

    open spec fn view(&self) -> TokenView {
        match self {
            Token::Illegal => TokenView::Illegal,
            Token::Eof => TokenView::Eof,
            Token::Assign => TokenView::Assign,
            Token::Plus => TokenView::Plus,
            Token::Minus => TokenView::Minus,
            Token::Bang => TokenView::Bang,
            Token::Asterisk => TokenView::Asterisk,
            Token::Slash => TokenView::Slash,
            Token::Lt => TokenView::Lt,
            Token::Gt => TokenView::Gt,
            Token::Eq => TokenView::Eq,
            Token::Neq => TokenView::Neq,
            Token::LParen => TokenView::LParen,
            Token::RParen => TokenView::RParen,
            Token::LBrace => TokenView::LBrace,
            Token::RBrace => TokenView::RBrace,
            Token::Comma => TokenView::Comma,
            Token::Semicolon => TokenView::Semicolon,
            Token::Ident(s) => TokenView::Ident(s@),
            Token::Int(s) => TokenView::Int(s@),
            Token::Function => TokenView::Function,
            Token::Let => TokenView::Let,
            Token::True => TokenView::True,
            Token::False => TokenView::False,
            Token::If => TokenView::If,
            Token::Else => TokenView::Else,
            Token::Return => TokenView::Return,
        }
    }
}

/// The short display text of each token kind: the symbol itself for
/// punctuation, the tag name for the others, and a fixed tag (without the
/// payload) for identifiers and integer literals.
pub open spec fn spec_token_text(t: TokenView) -> Seq<char> {
    match t {
        TokenView::Illegal => "Illegal"@,
        TokenView::Eof => "Eof"@,
        TokenView::Assign => "Assign"@,
        TokenView::Plus => "+"@,
        TokenView::Minus => "-"@,
        TokenView::Bang => "!"@,
        TokenView::Asterisk => "*"@,
        TokenView::Slash => "/"@,
        TokenView::Lt => "<"@,
        TokenView::Gt => ">"@,
        TokenView::Eq => "=="@,
        TokenView::Neq => "!="@,
        TokenView::LParen => "("@,
        TokenView::RParen => ")"@,
        TokenView::LBrace => "{"@,
        TokenView::RBrace => "}"@,
        TokenView::Comma => ","@,
        TokenView::Semicolon => ";"@,
        TokenView::Ident(_) => "Ident"@,
        TokenView::Int(_) => "Int"@,
        TokenView::Function => "Function"@,
        TokenView::Let => "Let"@,
        TokenView::True => "true"@,
        TokenView::False => "false"@,
        TokenView::If => "if"@,
        TokenView::Else => "else"@,
        TokenView::Return => "return"@,
    }
}

impl Token {
    /// The display text of this token, for diagnostics.
    pub fn text(&self) -> (s: String)
        ensures
            s@ == spec_token_text(self@),
    {
        match self {
            Token::Illegal => String::from_str("Illegal"),
            Token::Eof => String::from_str("Eof"),
            Token::Assign => String::from_str("Assign"),
            Token::Plus => String::from_str("+"),
            Token::Minus => String::from_str("-"),
            Token::Bang => String::from_str("!"),
            Token::Asterisk => String::from_str("*"),
            Token::Slash => String::from_str("/"),
            Token::Lt => String::from_str("<"),
            Token::Gt => String::from_str(">"),
            Token::Eq => String::from_str("=="),
            Token::Neq => String::from_str("!="),
            Token::LParen => String::from_str("("),
            Token::RParen => String::from_str(")"),
            Token::LBrace => String::from_str("{"),
            Token::RBrace => String::from_str("}"),
            Token::Comma => String::from_str(","),
            Token::Semicolon => String::from_str(";"),
            Token::Ident(_) => String::from_str("Ident"),
            Token::Int(_) => String::from_str("Int"),
            Token::Function => String::from_str("Function"),
            Token::Let => String::from_str("Let"),
            Token::True => String::from_str("true"),
            Token::False => String::from_str("false"),
            Token::If => String::from_str("if"),
            Token::Else => String::from_str("else"),
            Token::Return => String::from_str("return"),
        }
    }
}

} // verus!
