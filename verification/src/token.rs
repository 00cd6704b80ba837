use vstd::prelude::*;

use crate::expression::{LitV, Literal};

verus! {

/// Every kind of token that the scanner produces.
#[derive(Debug, Clone, Copy, PartialEq, Eq, Structural)]
pub enum TokenType {
    // single-character tokens
    LeftParen,
    RightParen,
    LeftBrace,
    RightBrace,
    Comma,
    Dot,
    Minus,
    Plus,
    SemiColon,
    Slash,
    Star,
    // one- or two-character tokens
    Bang,
    BangEqual,
    Equal,
    EqualEqual,
    Greater,
    GreaterEqual,
    Less,
    LessEqual,
    // literals
    Identifier,
    String,
    Number,
    // keywords
    And,
    Class,
    Else,
    False,
    Fun,
    For,
    If,
    Nil,
    Or,
    Print,
    Return,
    Super,
    This,
    True,
    Var,
    While,
    EOF,
}

/// A scanned token: its kind, its text, the line it ended on, and its literal value.
#[derive(Debug, PartialEq)]
pub struct Token {
    pub token_type: TokenType,
    pub lexeme: String,
    pub line: Option<usize>,
    pub literal: Option<Literal>,
}

/// The mathematical view of a token: its text as a sequence of characters.
pub struct TokenV {
    pub token_type: TokenType,
    pub lexeme: Seq<char>,
    pub line: Option<usize>,
    pub literal: Option<LitV>,
}

impl View for Token {
    type V = TokenV;

    open spec fn view(&self) -> TokenV {
        TokenV {
            token_type: self.token_type,
            lexeme: self.lexeme@,
            line: self.line,
            literal: match self.literal {
                Some(l) => Some(l@),
                None => None,
            },
        }
    }
}

/// The views of a sequence of tokens.
pub open spec fn tokens_view(s: Seq<Token>) -> Seq<TokenV> {
    s.map_values(|t: Token| t@)
}

impl Clone for Token {
    fn clone(&self) -> (r: Self)
        ensures
            r == *self,
    {
        let literal = match &self.literal {
            Some(l) => Some(l.clone()),
            None => None,
        };
        Token {
            token_type: self.token_type,
            lexeme: self.lexeme.clone(),
            line: self.line,
            literal,
        }
    }
}

/// Clones every token of a slice.
pub fn clone_tokens(v: &Vec<Token>) -> (r: Vec<Token>)
    ensures
        r@ == v@,
{
    let mut r: Vec<Token> = Vec::new();
    let mut i: usize = 0;
    while i < v.len()
        invariant
            i <= v.len(),
            r@ == v@.subrange(0, i as int),
        decreases v.len() - i,
    {
        r.push(v[i].clone());
        i = i + 1;
    }
    assert(v@.subrange(0, v@.len() as int) =~= v@);
    r
}

} // verus!
