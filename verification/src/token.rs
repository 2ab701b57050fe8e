use vstd::prelude::*;

verus! {

/// The kind of a token.
#[derive(Debug, Clone, Copy, PartialEq, Eq, Structural)]
pub enum TokenType {
    // Literals
    Number,
    Identifier,
    String,
    Boolean,
    Nil,
    // Keywords
    Print,
    Make,
    If,
    Else,
    And,
    Or,
    While,
    Funk,
    Return,
    With,
    As,
    For,
    In,
    // Single-character tokens
    Plus,
    Minus,
    Star,
    Slash,
    LParen,
    RParen,
    LBrace,
    RBrace,
    LBracket,
    RBracket,
    Equal,
    Bang,
    Less,
    Greater,
    Comma,
    Semicolon,
    Dot,
    Colon,
    // Double-character tokens
    EqualEqual,
    BangEqual,
    GreaterEqual,
    LessEqual,
    // End of input
    EOF,
}

/// One lexeme of the source text with its kind and the line it stands on.
#[derive(Debug, Clone, PartialEq)]
pub struct Token {
    pub token_type: TokenType,
    pub lexeme: String,
    pub line: u32,
}

/// The mathematical value of a [`Token`]: its text is a sequence of characters.
pub struct TokenView {
    pub token_type: TokenType,
    pub lexeme: Seq<char>,
    pub line: u32,
}

impl View for Token {
    type V = TokenView;

    open spec fn view(&self) -> TokenView {
        TokenView { token_type: self.token_type, lexeme: self.lexeme@, line: self.line }
    }
}

impl Token {
    /// A token of the given kind, text and line.
    pub fn new(token_type: TokenType, lexeme: String, line: u32) -> (token: Token)
        ensures
            token.token_type == token_type,
            token.lexeme == lexeme,
            token.line == line,
    {
        Token { token_type, lexeme, line }
    }

    /// A copy of this token.
    pub fn duplicate(&self) -> (copy: Token)
        ensures
            copy == *self,
            copy@ == self@,
    {
        Token { token_type: self.token_type, lexeme: self.lexeme.clone(), line: self.line }
    }
}

/// The views of a run of tokens, in order.
pub open spec fn token_views(tokens: Seq<Token>) -> Seq<TokenView> {
    Seq::new(tokens.len(), |i: int| tokens[i]@)
}

/// Copies of the given tokens, in order.
pub fn duplicate_tokens(tokens: &Vec<Token>) -> (copy: Vec<Token>)
    ensures
        copy@ == tokens@,
        token_views(copy@) == token_views(tokens@),
{
    let mut copy: Vec<Token> = Vec::new();
    let mut i: usize = 0;
    while i < tokens.len()
        invariant
            i <= tokens.len(),
            copy@ == tokens@.subrange(0, i as int),
        decreases tokens.len() - i,
    {
        copy.push(tokens[i].duplicate());
        proof {
            assert(copy@ =~= tokens@.subrange(0, i + 1));
        }
        i = i + 1;
    }
    proof {
        assert(tokens@.subrange(0, tokens.len() as int) =~= tokens@);
    }
    copy
}

} // verus!
