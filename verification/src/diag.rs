//! Build-time diagnostics: every way a declaration can be rejected, each
//! bound to the span of the offending token, with its exact message text.

use vstd::prelude::*;
use vstd::string::StringExecFns;
use crate::decimal::{dec_rep, push_decimal};

verus! {

/// Why a declaration was rejected.
#[derive(PartialEq, Eq, Debug)]
pub enum DiagKind {
    /// The stream ended where another token was owed.
    UnexpectedEnd,
    /// A token was left over, or stood where a different one was owed.
    UnexpectedToken,
    /// An integer literal was owed.
    ExpectedIntLiteral,
    /// The literal carries a numeric-type suffix.
    SuffixedLiteral { suffix: String },
    /// The literal does not fit the machine's size type.
    LiteralTooLarge,
    /// The alignment value is not a power of two.
    NotPowerOfTwo { found: usize },
    /// The keyword `struct` was owed.
    ExpectedStruct,
    /// An identifier was owed.
    ExpectedIdent,
    /// The single field was neither parenthesized nor braced.
    ExpectedFieldShape,
    /// The storage array's element type was not `u8`.
    ExpectedU8,
    /// A `;` was owed.
    ExpectedSemi,
    /// A `:` was owed.
    ExpectedColon,
    /// A `,` was owed.
    ExpectedComma,
    /// A bracketed array type was owed.
    ExpectedBracket,
    /// The declared buffer length is zero.
    ZeroLength,
    /// The declared length is not a multiple of the alignment.
    NotMultiple { len: usize, align: usize },
}

/// A rejection: its reason together with the span identifier of the token
/// the diagnostic points at.
#[derive(PartialEq, Eq, Debug)]
pub struct Diag {
    pub span: usize,
    pub kind: DiagKind,
}

impl DiagKind {
    /// The exact message text of this diagnostic.
    pub open spec fn message_spec(&self) -> Seq<char> {
        match self {
            DiagKind::UnexpectedEnd => "unexpected end of input"@,
            DiagKind::UnexpectedToken => "unexpected token"@,
            DiagKind::ExpectedIntLiteral => "expected integer literal"@,
            DiagKind::SuffixedLiteral { suffix } => "expected unsuffixed `usize`, found suffix `"@
                + suffix@ + "`"@,
            DiagKind::LiteralTooLarge => "integer literal is too large"@,
            DiagKind::NotPowerOfTwo { found } => "expected a power of two, found `"@ + dec_rep(
                *found as nat,
            ) + "`"@,
            DiagKind::ExpectedStruct => "expected `struct`"@,
            DiagKind::ExpectedIdent => "expected identifier"@,
            DiagKind::ExpectedFieldShape => "expected parentheses or curly braces"@,
            DiagKind::ExpectedU8 => "expected `u8`"@,
            DiagKind::ExpectedSemi => "expected `;`"@,
            DiagKind::ExpectedColon => "expected `:`"@,
            DiagKind::ExpectedComma => "expected `,`"@,
            DiagKind::ExpectedBracket => "expected square brackets"@,
            DiagKind::ZeroLength => "buffer length must be greater than zero"@,
            DiagKind::NotMultiple { len, align } => "buffer length `"@ + dec_rep(*len as nat)
                + "` is not a multiple of `"@ + dec_rep(*align as nat) + "`"@,
        }
    }

    /// Renders the message text.
    pub fn message(&self) -> (s: String)
        ensures
            s@ == self.message_spec(),
    {
        match self {
            DiagKind::UnexpectedEnd => String::from_str("unexpected end of input"),
            DiagKind::UnexpectedToken => String::from_str("unexpected token"),
            DiagKind::ExpectedIntLiteral => String::from_str("expected integer literal"),
            DiagKind::SuffixedLiteral { suffix } => {
                let mut s = String::from_str("expected unsuffixed `usize`, found suffix `");
                s.append(suffix.as_str());
                s.append("`");
                s
            },
            DiagKind::LiteralTooLarge => String::from_str("integer literal is too large"),
            DiagKind::NotPowerOfTwo { found } => {
                let mut s = String::from_str("expected a power of two, found `");
                push_decimal(&mut s, *found);
                s.append("`");
                s
            },
            DiagKind::ExpectedStruct => String::from_str("expected `struct`"),
            DiagKind::ExpectedIdent => String::from_str("expected identifier"),
            DiagKind::ExpectedFieldShape => String::from_str("expected parentheses or curly braces"),
            DiagKind::ExpectedU8 => String::from_str("expected `u8`"),
            DiagKind::ExpectedSemi => String::from_str("expected `;`"),
            DiagKind::ExpectedColon => String::from_str("expected `:`"),
            DiagKind::ExpectedComma => String::from_str("expected `,`"),
            DiagKind::ExpectedBracket => String::from_str("expected square brackets"),
            DiagKind::ZeroLength => String::from_str("buffer length must be greater than zero"),
            DiagKind::NotMultiple { len, align } => {
                let mut s = String::from_str("buffer length `");
                push_decimal(&mut s, *len);
                s.append("` is not a multiple of `");
                push_decimal(&mut s, *align);
                s.append("`");
                s
            },
        }
    }
}

impl Diag {
    /// A diagnostic at the given span.
    pub fn new(span: usize, kind: DiagKind) -> (d: Diag)
        ensures
            d.span == span,
            d.kind == kind,
    {
        Diag { span, kind }
    }
}

} // verus!
