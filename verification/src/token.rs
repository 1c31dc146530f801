use vstd::prelude::*;
use crate::span::Span;

verus! {

/// Reserved words recognised by the lexer. The TypeScript-only words
/// (`enum`, `interface`, `type`, `as`) are lexed like the rest; the
/// code generator is what strips or lowers the constructs built from them.
#[derive(Clone, Copy, PartialEq, Eq, Structural, Debug)]
pub enum Kw {
    Let,
    Const,
    Var,
    Function,
    Return,
    If,
    Else,
    While,
    True,
    False,
    Null,
    Enum,
    Interface,
    Type,
    As,
}

/// Punctuators and operators, one variant per longest-match spelling.
#[derive(Clone, Copy, PartialEq, Eq, Structural, Debug)]
pub enum Punct {
    LParen,
    RParen,
    LBrace,
    RBrace,
    LBracket,
    RBracket,
    Semi,
    Comma,
    Dot,
    Colon,
    Question,
    Arrow,
    Plus,
    Minus,
    Star,
    StarStar,
    Slash,
    Percent,
    EqEq,
    NotEq,
    EqEqEq,
    NotEqEq,
    Lt,
    LtEq,
    Gt,
    GtEq,
    AndAnd,
    OrOr,
    Coalesce,
    Bang,
    Assign,
    Pipe,
    Amp,
}

/// The kind of a token. Literal text is not stored here: a token is a
/// span into the source, and whoever needs the text reads it from the
/// source through the span.
#[derive(Clone, Copy, PartialEq, Eq, Structural, Debug)]
pub enum TokenKind {
    Ident,
    Keyword(Kw),
    Num,
    StrLit,
    Regex,
    Punct(Punct),
    Eof,
}

/// One token: a kind plus the half-open source range it was read from.
#[derive(Clone, Copy, PartialEq, Eq, Structural, Debug)]
pub struct Token {
    pub kind: TokenKind,
    pub span: Span,
}

impl Token {
    pub open spec fn wf(self, n: nat) -> bool {
        self.span.wf() && self.span.end <= n
    }
}

/// Token-level failures. Each carries the span of the offending text.
#[derive(Clone, Copy, PartialEq, Eq, Structural, Debug)]
pub enum LexError {
    UnterminatedString(Span),
    UnterminatedComment(Span),
    UnterminatedRegex(Span),
    InvalidNumericLiteral(Span),
    InvalidEscapeSequence(Span),
    UnexpectedCharacter(Span),
}

impl LexError {
    /// The source range the error points at.
    pub open spec fn spec_span(self) -> Span {
        match self {
            LexError::UnterminatedString(s) => s,
            LexError::UnterminatedComment(s) => s,
            LexError::UnterminatedRegex(s) => s,
            LexError::InvalidNumericLiteral(s) => s,
            LexError::InvalidEscapeSequence(s) => s,
            LexError::UnexpectedCharacter(s) => s,
        }
    }

    pub fn span(&self) -> (s: Span)
        ensures
            s == self.spec_span(),
    {
        match self {
            LexError::UnterminatedString(s) => *s,
            LexError::UnterminatedComment(s) => *s,
            LexError::UnterminatedRegex(s) => *s,
            LexError::InvalidNumericLiteral(s) => *s,
            LexError::InvalidEscapeSequence(s) => *s,
            LexError::UnexpectedCharacter(s) => *s,
        }
    }
}

} // verus!
