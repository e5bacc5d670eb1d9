//! The generator's view of source text: a stream of tokens. Each token
//! carries the identifier of its source span, so a diagnostic can point at
//! the precise offending token.

use vstd::prelude::*;

verus! {

/// The three bracketing delimiters a group can carry.
#[derive(Clone, Copy, PartialEq, Eq, Structural, Debug)]
pub enum Delim {
    Paren,
    Brace,
    Bracket,
}

/// One token of a declaration or of emitted code.
#[derive(PartialEq, Eq, Debug)]
pub struct Token {
    /// The identifier of the token's source span; emitted tokens that have
    /// no source of their own carry `GENERATED_SPAN`.
    pub span: usize,
    pub kind: TokenKind,
}

/// What a token is.
#[derive(PartialEq, Eq, Debug)]
pub enum TokenKind {
    /// An identifier or keyword.
    Word(String),
    /// An integer literal, held as its decimal digits and its suffix
    /// (empty when the literal is unsuffixed).
    IntLit { digits: String, suffix: String },
    /// A single punctuation character.
    Punct(char),
    /// A delimited group of tokens.
    Group { delim: Delim, body: Vec<Token> },
}

/// The span identifier carried by tokens the generator makes up itself.
pub const GENERATED_SPAN: usize = 0;

impl Token {
    /// A generated identifier or keyword token.
    pub fn word(text: &str) -> (t: Token)
        ensures
            t.span == GENERATED_SPAN,
            t.kind matches TokenKind::Word(w) && w@ == text@,
    {
        Token { span: GENERATED_SPAN, kind: TokenKind::Word(text.to_owned()) }
    }

    /// A generated punctuation token.
    pub fn punct(c: char) -> (t: Token)
        ensures
            t.span == GENERATED_SPAN,
            t.kind == TokenKind::Punct(c),
    {
        Token { span: GENERATED_SPAN, kind: TokenKind::Punct(c) }
    }

    /// A generated unsuffixed integer literal token.
    pub fn int_lit(digits: &str) -> (t: Token)
        ensures
            t.span == GENERATED_SPAN,
            t.kind matches TokenKind::IntLit { digits: d, suffix: s } && d@ == digits@ && s@
                == Seq::<char>::empty(),
    {
        let suffix: String = String::new();
        proof {
            assert(suffix@ =~= Seq::<char>::empty());
        }
        Token { span: GENERATED_SPAN, kind: TokenKind::IntLit { digits: digits.to_owned(), suffix } }
    }

    /// A copy of a leaf token (a group cannot be copied this way).
    pub fn clone_flat(&self) -> (r: Token)
        requires
            !(self.kind matches TokenKind::Group { .. }),
        ensures
            r == *self,
    {
        match &self.kind {
            TokenKind::Word(w) => Token { span: self.span, kind: TokenKind::Word(w.clone()) },
            TokenKind::IntLit { digits, suffix } => Token {
                span: self.span,
                kind: TokenKind::IntLit { digits: digits.clone(), suffix: suffix.clone() },
            },
            TokenKind::Punct(c) => Token { span: self.span, kind: TokenKind::Punct(*c) },
            TokenKind::Group { .. } => {
                proof {
                    assert(false);
                }
                Token { span: self.span, kind: TokenKind::Punct(' ') }
            },
        }
    }

    /// A generated group token.
    pub fn group(delim: Delim, body: Vec<Token>) -> (t: Token)
        ensures
            t.span == GENERATED_SPAN,
            t.kind == (TokenKind::Group { delim, body }),
    {
        Token { span: GENERATED_SPAN, kind: TokenKind::Group { delim, body } }
    }
}

} // verus!
