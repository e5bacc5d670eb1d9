//! Parsing of a buffer declaration out of a token stream: the alignment
//! argument, the struct header, and the single byte-array storage field,
//! with a diagnostic at the precise offending token on every rejection.

use vstd::prelude::*;
use crate::token::{Token, TokenKind, Delim, GENERATED_SPAN};
use crate::diag::{Diag, DiagKind};

verus! {

/// A decimal digit.
pub open spec fn is_digit(c: char) -> bool {
    '0' <= c && c <= '9'
}

/// The value of one decimal digit.
pub open spec fn digit_val(c: char) -> nat {
    (c as int - '0' as int) as nat
}

/// Whether every character of `s` is a decimal digit.
pub open spec fn all_digits(s: Seq<char>) -> bool {
    forall|i: int| 0 <= i < s.len() ==> is_digit(s[i])
}

/// The number written in decimal as `s`.
pub open spec fn digits_value(s: Seq<char>) -> nat
    decreases s.len(),
{
    if s.len() == 0 {
        0
    } else {
        digits_value(s.drop_last()) * 10 + digit_val(s.last())
    }
}

/// Whether `t` is the identifier or keyword `w`.
pub open spec fn is_word(t: Token, w: Seq<char>) -> bool {
    t.kind matches TokenKind::Word(x) && x@ == w
}

/// Whether `t` is an integer literal without a suffix whose digits are all
/// decimal digits.
pub open spec fn is_plain_int(t: Token) -> bool {
    t.kind matches TokenKind::IntLit { digits, suffix } && suffix@.len() == 0 && digits@.len() > 0
        && all_digits(digits@)
}

/// The digits of an integer literal token.
pub open spec fn token_digits(t: Token) -> Seq<char> {
    match t.kind {
        TokenKind::IntLit { digits, suffix: _ } => digits@,
        _ => Seq::empty(),
    }
}

/// The suffix of an integer literal token.
pub open spec fn token_suffix(t: Token) -> Seq<char> {
    match t.kind {
        TokenKind::IntLit { digits: _, suffix } => suffix@,
        _ => Seq::empty(),
    }
}

/// A `usize` literal without a suffix, kept as its source token together
/// with its parsed value.
#[derive(PartialEq, Eq, Debug)]
pub struct UnsuffixedUsize {
    /// The literal token as written.
    pub lit: Token,
    /// Its value.
    pub value: usize,
}

impl UnsuffixedUsize {
    /// The token is an unsuffixed decimal literal and `value` is its number.
    pub open spec fn wf(&self) -> bool {
        &&& is_plain_int(self.lit)
        &&& self.value as nat == digits_value(token_digits(self.lit))
    }
}

/// Reads one digit's value.
fn digit_of(c: char) -> (d: usize)
    requires
        is_digit(c),
    ensures
        d as nat == digit_val(c),
        d < 10,
{
    if c == '0' {
        0
    } else if c == '1' {
        1
    } else if c == '2' {
        2
    } else if c == '3' {
        3
    } else if c == '4' {
        4
    } else if c == '5' {
        5
    } else if c == '6' {
        6
    } else if c == '7' {
        7
    } else if c == '8' {
        8
    } else {
        9
    }
}

impl UnsuffixedUsize {
    /// Takes one token and reads it as an unsuffixed `usize` literal.
    ///
    /// Rejections, in order: an empty stream; a token that is no integer
    /// literal, or one whose digits are not plain decimal digits; a literal
    /// with a suffix; a value too large for `usize`. The stream loses its
    /// first token whenever it has one.
    pub fn parse(toks: &mut Vec<Token>) -> (r: Result<UnsuffixedUsize, Diag>)
        ensures
            old(toks)@.len() == 0 ==> r == Err::<UnsuffixedUsize, Diag>(
                Diag { span: GENERATED_SPAN, kind: DiagKind::UnexpectedEnd },
            ) && final(toks)@ == old(toks)@,
            old(toks)@.len() > 0 ==> final(toks)@ == old(toks)@.skip(1),
            old(toks)@.len() > 0 && !(old(toks)@[0].kind matches TokenKind::IntLit { .. }) ==> r
                == Err::<UnsuffixedUsize, Diag>(
                Diag { span: old(toks)@[0].span, kind: DiagKind::ExpectedIntLiteral },
            ),
            old(toks)@.len() > 0 && (old(toks)@[0].kind matches TokenKind::IntLit { .. })
                && token_suffix(old(toks)@[0]).len() > 0 ==> (r matches Err(d) && d.span == old(
                toks,
            )@[0].span && (d.kind matches DiagKind::SuffixedLiteral { suffix } && suffix@
                == token_suffix(old(toks)@[0]))),
            old(toks)@.len() > 0 && (old(toks)@[0].kind matches TokenKind::IntLit { .. })
                && token_suffix(old(toks)@[0]).len() == 0 && !(token_digits(old(toks)@[0]).len() > 0
                && all_digits(token_digits(old(toks)@[0]))) ==> r == Err::<UnsuffixedUsize, Diag>(
                Diag { span: old(toks)@[0].span, kind: DiagKind::ExpectedIntLiteral },
            ),
            old(toks)@.len() > 0 && is_plain_int(old(toks)@[0]) && digits_value(
                token_digits(old(toks)@[0]),
            ) > usize::MAX ==> r == Err::<UnsuffixedUsize, Diag>(
                Diag { span: old(toks)@[0].span, kind: DiagKind::LiteralTooLarge },
            ),
            old(toks)@.len() > 0 && is_plain_int(old(toks)@[0]) && digits_value(
                token_digits(old(toks)@[0]),
            ) <= usize::MAX ==> (r matches Ok(u) && u.lit == old(toks)@[0] && u.wf()),
            r matches Ok(u) ==> old(toks)@.len() > 0 && u.lit == old(toks)@[0] && u.wf(),
    {
        if toks.len() == 0 {
            return Err(Diag::new(GENERATED_SPAN, DiagKind::UnexpectedEnd));
        }
        let t = toks.remove(0);
        proof {
            assert(toks@ =~= old(toks)@.skip(1));
        }
        match t {
            Token { span, kind: TokenKind::IntLit { digits, suffix } } => {
                if !suffix.as_str().is_empty() {
                    return Err(Diag::new(span, DiagKind::SuffixedLiteral { suffix }));
                }
                let n = digits.as_str().unicode_len();
                if n == 0 {
                    return Err(Diag::new(span, DiagKind::ExpectedIntLiteral));
                }
                let mut i: usize = 0;
                while i < n
                    invariant
                        i <= n,
                        n == digits@.len(),
                        n > 0,
                        suffix@.len() == 0,
                        old(toks)@.len() > 0,
                        toks@ == old(toks)@.skip(1),
                        old(toks)@[0] == (Token {
                            span,
                            kind: TokenKind::IntLit { digits, suffix },
                        }),
                        all_digits(digits@.take(i as int)),
                    decreases n - i,
                {
                    let c = digits.as_str().get_char(i);
                    if c < '0' || c > '9' {
                        return Err(Diag::new(span, DiagKind::ExpectedIntLiteral));
                    }
                    proof {
                        assert(digits@.take(i + 1).drop_last() =~= digits@.take(i as int));
                    }
                    i += 1;
                }
                proof {
                    assert(digits@.take(n as int) =~= digits@);
                }
                let mut value: usize = 0;
                i = 0;
                while i < n
                    invariant
                        i <= n,
                        n == digits@.len(),
                        n > 0,
                        suffix@.len() == 0,
                        old(toks)@.len() > 0,
                        toks@ == old(toks)@.skip(1),
                        old(toks)@[0] == (Token {
                            span,
                            kind: TokenKind::IntLit { digits, suffix },
                        }),
                        all_digits(digits@),
                        value as nat == digits_value(digits@.take(i as int)),
                    decreases n - i,
                {
                    let c = digits.as_str().get_char(i);
                    let d = digit_of(c);
                    proof {
                        assert(digits@.take(i + 1).drop_last() =~= digits@.take(i as int));
                        assert(digits@.take(i + 1).last() == digits@[i as int]);
                    }
                    let next = match value.checked_mul(10) {
                        Some(v) => v.checked_add(d),
                        None => None,
                    };
                    match next {
                        Some(v) => {
                            value = v;
                        },
                        None => {
                            proof {
                                lemma_digits_value_grows(digits@, i + 1);
                            }
                            return Err(Diag::new(span, DiagKind::LiteralTooLarge));
                        },
                    }
                    i += 1;
                }
                proof {
                    assert(digits@.take(n as int) =~= digits@);
                }
                Ok(UnsuffixedUsize { lit: Token { span, kind: TokenKind::IntLit { digits, suffix } }, value })
            },
            t => {
                Err(Diag::new(t.span, DiagKind::ExpectedIntLiteral))
            },
        }
    }
}

/// A `usize` literal without a suffix whose value is a power of two, as the
/// alignment argument requires.
#[derive(PartialEq, Eq, Debug)]
pub struct UnsuffixedPowerOfTwoUsize {
    pub inner: UnsuffixedUsize,
}

impl UnsuffixedPowerOfTwoUsize {
    /// The literal is well formed and its value is a power of two.
    pub open spec fn wf(&self) -> bool {
        &&& self.inner.wf()
        &&& crate::layout::is_power_of_two(self.inner.value as nat)
    }

    /// Reads an unsuffixed `usize` literal and rejects a value that is not
    /// a power of two, pointing at the literal itself.
    pub fn parse(toks: &mut Vec<Token>) -> (r: Result<UnsuffixedPowerOfTwoUsize, Diag>)
        ensures
            old(toks)@.len() == 0 ==> r == Err::<UnsuffixedPowerOfTwoUsize, Diag>(
                Diag { span: GENERATED_SPAN, kind: DiagKind::UnexpectedEnd },
            ) && final(toks)@ == old(toks)@,
            r matches Ok(a) ==> old(toks)@.len() > 0 && a.inner.lit == old(toks)@[0] && a.wf(),
            old(toks)@.len() > 0 ==> final(toks)@ == old(toks)@.skip(1),
            old(toks)@.len() > 0 && is_plain_int(old(toks)@[0]) && digits_value(
                token_digits(old(toks)@[0]),
            ) <= usize::MAX && !crate::layout::is_power_of_two(
                digits_value(token_digits(old(toks)@[0])),
            ) ==> r == Err::<UnsuffixedPowerOfTwoUsize, Diag>(
                Diag {
                    span: old(toks)@[0].span,
                    kind: DiagKind::NotPowerOfTwo {
                        found: digits_value(token_digits(old(toks)@[0])) as usize,
                    },
                },
            ),
            old(toks)@.len() > 0 && is_plain_int(old(toks)@[0]) && digits_value(
                token_digits(old(toks)@[0]),
            ) <= usize::MAX && crate::layout::is_power_of_two(
                digits_value(token_digits(old(toks)@[0])),
            ) ==> (r matches Ok(a) && a.inner.lit == old(toks)@[0] && a.wf()),
            r matches Err(d) ==> (!(old(toks)@.len() > 0 && is_plain_int(old(toks)@[0])
                && digits_value(token_digits(old(toks)@[0])) <= usize::MAX) ==> !(
            d.kind matches DiagKind::NotPowerOfTwo { .. })),
    {
        let inner = match UnsuffixedUsize::parse(toks) {
            Ok(u) => u,
            Err(d) => {
                return Err(d);
            },
        };
        if !crate::layout::power_of_two(inner.value) {
            let span = inner.lit.span;
            return Err(Diag::new(span, DiagKind::NotPowerOfTwo { found: inner.value }));
        }
        Ok(UnsuffixedPowerOfTwoUsize { inner })
    }
}

/// An outer attribute `#[ ... ]`, kept verbatim as its two tokens.
pub struct Attr {
    /// The `#` token.
    pub pound: Token,
    /// The bracketed group holding the attribute's contents.
    pub group: Token,
}

impl Attr {
    pub open spec fn wf(&self) -> bool {
        &&& self.pound.kind == TokenKind::Punct('#')
        &&& self.group.kind matches TokenKind::Group { delim: Delim::Bracket, .. }
    }
}

/// The token run that a list of attributes stands for, in order.
pub open spec fn attrs_tokens(s: Seq<Attr>) -> Seq<Token>
    decreases s.len(),
{
    if s.len() == 0 {
        Seq::empty()
    } else {
        attrs_tokens(s.drop_last()) + seq![s.last().pound, s.last().group]
    }
}

/// Whether all attributes in a list are well formed.
pub open spec fn attrs_wf(s: Seq<Attr>) -> bool {
    forall|i: int| 0 <= i < s.len() ==> (#[trigger] s[i]).wf()
}

/// Whether the stream starts with the punctuation character `c`.
fn peek_punct(toks: &Vec<Token>, c: char) -> (b: bool)
    ensures
        b == (toks@.len() > 0 && toks@[0].kind == TokenKind::Punct(c)),
{
    if toks.len() == 0 {
        return false;
    }
    match &toks[0].kind {
        TokenKind::Punct(p) => *p == c,
        _ => false,
    }
}

/// Whether `t` is the identifier or keyword written `w`.
fn word_is(t: &Token, w: &str) -> (b: bool)
    ensures
        b == is_word(*t, w@),
{
    match &t.kind {
        TokenKind::Word(x) => {
            let o: String = w.to_owned();
            *x == o
        },
        _ => false,
    }
}

/// Whether the leading attribute run of the stream is well formed: every
/// `#` reached by scanning `#`-plus-bracket-group pairs from the front is
/// followed by a bracketed group.
pub open spec fn attr_scan_ok(s: Seq<Token>) -> bool
    decreases s.len(),
{
    if s.len() == 0 || s[0].kind != TokenKind::Punct('#') {
        true
    } else if s.len() >= 2 && (s[1].kind matches TokenKind::Group { delim: Delim::Bracket, .. }) {
        attr_scan_ok(s.skip(2))
    } else {
        false
    }
}

/// Reads the outer attributes standing at the front of the stream: every
/// leading `#` followed by a bracketed group, kept verbatim. Succeeds
/// exactly when each `#` in the leading run has its bracketed group.
pub fn parse_outer_attrs(toks: &mut Vec<Token>) -> (r: Result<Vec<Attr>, Diag>)
    ensures
        r is Ok <==> attr_scan_ok(old(toks)@),
        r matches Ok(attrs) ==> attrs_wf(attrs@) && old(toks)@ == attrs_tokens(attrs@)
            + final(toks)@ && !(final(toks)@.len() > 0 && final(toks)@[0].kind == TokenKind::Punct(
            '#',
        )),
        r is Err ==> (r matches Err(d) && (d.kind == DiagKind::UnexpectedEnd || d.kind
            == DiagKind::ExpectedBracket)),
{
    let mut attrs: Vec<Attr> = Vec::new();
    while peek_punct(toks, '#')
        invariant
            attrs_wf(attrs@),
            old(toks)@ == attrs_tokens(attrs@) + toks@,
            attr_scan_ok(old(toks)@) == attr_scan_ok(toks@),
        decreases toks@.len(),
    {
        let ghost at_entry = toks@;
        let pound = toks.remove(0);
        if toks.len() == 0 {
            proof {
                assert(!attr_scan_ok(at_entry));
            }
            return Err(Diag::new(GENERATED_SPAN, DiagKind::UnexpectedEnd));
        }
        let group = toks.remove(0);
        let is_bracket_group = match &group.kind {
            TokenKind::Group { delim: Delim::Bracket, .. } => true,
            _ => false,
        };
        if !is_bracket_group {
            proof {
                assert(!attr_scan_ok(at_entry));
            }
            return Err(Diag::new(group.span, DiagKind::ExpectedBracket));
        }
        let a = Attr { pound, group };
        proof {
            assert(attrs@.push(a).drop_last() =~= attrs@);
            assert(old(toks)@ =~= attrs_tokens(attrs@.push(a)) + toks@);
            assert(toks@ =~= at_entry.skip(2));
            assert(attr_scan_ok(at_entry) == attr_scan_ok(at_entry.skip(2)));
        }
        attrs.push(a);
    }
    Ok(attrs)
}

/// A declaration's visibility, kept verbatim: nothing, `pub`, or `pub`
/// followed by a parenthesized scope.
pub enum Vis {
    Inherited,
    Public { tok: Token },
    Scoped { tok: Token, scope: Token },
}

/// Whether `t` is a parenthesized visibility scope, as in `pub(crate)`:
/// its first inner token decides, as the host grammar has it.
pub open spec fn is_vis_scope(t: Token) -> bool {
    t.kind matches TokenKind::Group { delim: Delim::Paren, body } && body@.len() > 0 && (is_word(
        body@[0],
        "crate"@,
    ) || is_word(body@[0], "super"@) || is_word(body@[0], "self"@) || is_word(body@[0], "in"@))
}

impl Vis {
    pub open spec fn wf(&self) -> bool {
        match self {
            Vis::Inherited => true,
            Vis::Public { tok } => is_word(*tok, "pub"@),
            Vis::Scoped { tok, scope } => is_word(*tok, "pub"@) && is_vis_scope(*scope),
        }
    }

    /// The token run this visibility stands for.
    pub open spec fn tokens(&self) -> Seq<Token> {
        match self {
            Vis::Inherited => Seq::empty(),
            Vis::Public { tok } => seq![*tok],
            Vis::Scoped { tok, scope } => seq![*tok, *scope],
        }
    }

    /// Reads a visibility from the front of the stream. Never rejects:
    /// a stream that does not start with `pub` has inherited visibility.
    pub fn parse(toks: &mut Vec<Token>) -> (v: Vis)
        ensures
            v.wf(),
            old(toks)@ == v.tokens() + final(toks)@,
            !(old(toks)@.len() > 0 && is_word(old(toks)@[0], "pub"@)) ==> v == Vis::Inherited,
            old(toks)@.len() > 0 && is_word(old(toks)@[0], "pub"@) && old(toks)@.len() > 1
                && is_vis_scope(old(toks)@[1]) ==> v matches Vis::Scoped { .. },
            old(toks)@.len() > 0 && is_word(old(toks)@[0], "pub"@) && !(old(toks)@.len() > 1
                && is_vis_scope(old(toks)@[1])) ==> v matches Vis::Public { .. },
    {
        if toks.len() == 0 {
            return Vis::Inherited;
        }
        let starts_pub = word_is(&toks[0], "pub");
        if !starts_pub {
            return Vis::Inherited;
        }
        let tok = toks.remove(0);
        proof {
            assert(old(toks)@ =~= seq![tok] + toks@);
        }
        let scoped = scope_follows(toks);
        if scoped {
            let scope = toks.remove(0);
            proof {
                assert(old(toks)@ =~= seq![tok, scope] + toks@);
            }
            Vis::Scoped { tok, scope }
        } else {
            Vis::Public { tok }
        }
    }
}

/// Whether the stream starts with a parenthesized visibility scope.
fn scope_follows(toks: &Vec<Token>) -> (b: bool)
    ensures
        b == (toks@.len() > 0 && is_vis_scope(toks@[0])),
{
    if toks.len() == 0 {
        return false;
    }
    match &toks[0].kind {
        TokenKind::Group { delim: Delim::Paren, body } => {
            if body.len() == 0 {
                return false;
            }
            word_is(&body[0], "crate") || word_is(&body[0], "super") || word_is(&body[0], "self")
                || word_is(&body[0], "in")
        },
        _ => false,
    }
}

/// Whether `t` is a well-shaped byte-array type `[u8; LEN]` with a plain
/// decimal length literal.
pub open spec fn is_buffer_type_token(t: Token) -> bool {
    t.kind matches TokenKind::Group { delim: Delim::Bracket, body } && body@.len() == 3 && is_word(
        body@[0],
        "u8"@,
    ) && body@[1].kind == TokenKind::Punct(';') && is_plain_int(body@[2])
}

/// The storage field's type: a byte array of a declared length.
pub struct BufferType {
    /// The declared length literal.
    pub len: UnsuffixedUsize,
}

impl BufferType {
    pub open spec fn wf(&self) -> bool {
        self.len.wf()
    }

    /// Reads a `[u8; LEN]` type from the front of the stream: a bracketed
    /// group holding the element type `u8`, a `;`, and the length literal.
    pub fn parse(toks: &mut Vec<Token>) -> (r: Result<BufferType, Diag>)
        ensures
            old(toks)@.len() == 0 ==> r == Err::<BufferType, Diag>(
                Diag { span: GENERATED_SPAN, kind: DiagKind::UnexpectedEnd },
            ) && final(toks)@ == old(toks)@,
            old(toks)@.len() > 0 ==> final(toks)@ == old(toks)@.skip(1),
            old(toks)@.len() > 0 && !(old(toks)@[0].kind matches TokenKind::Group {
                delim: Delim::Bracket,
                ..
            }) ==> r == Err::<BufferType, Diag>(
                Diag { span: old(toks)@[0].span, kind: DiagKind::ExpectedBracket },
            ),
            r is Ok <==> old(toks)@.len() > 0 && is_buffer_type_token(old(toks)@[0])
                && digits_value(token_digits(buffer_type_lit(old(toks)@[0]))) <= usize::MAX,
            r matches Ok(bt) ==> bt.wf() && bt.len.lit == buffer_type_lit(old(toks)@[0])
                && bt.len.value as nat == digits_value(token_digits(bt.len.lit)),
            old(toks)@.len() > 0 && (old(toks)@[0].kind matches TokenKind::Group {
                delim: Delim::Bracket,
                ..
            }) && group_body(old(toks)@[0]).len() > 0 && (group_body(
                old(toks)@[0],
            )[0].kind matches TokenKind::Word(w) && w@ != "u8"@) ==> r == Err::<BufferType, Diag>(
                Diag { span: group_body(old(toks)@[0])[0].span, kind: DiagKind::ExpectedU8 },
            ),
    {
        if toks.len() == 0 {
            return Err(Diag::new(GENERATED_SPAN, DiagKind::UnexpectedEnd));
        }
        let t = toks.remove(0);
        proof {
            assert(toks@ =~= old(toks)@.skip(1));
        }
        match t {
            Token { span: _, kind: TokenKind::Group { delim: Delim::Bracket, body } } => {
                let mut body = body;
                let ghost orig_body = body@;
                if body.len() == 0 {
                    return Err(Diag::new(GENERATED_SPAN, DiagKind::UnexpectedEnd));
                }
                let first_span = body[0].span;
                let is_id = match &body[0].kind {
                    TokenKind::Word(_) => true,
                    _ => false,
                };
                if !is_id {
                    return Err(Diag::new(first_span, DiagKind::ExpectedIdent));
                }
                if !word_is(&body[0], "u8") {
                    return Err(Diag::new(first_span, DiagKind::ExpectedU8));
                }
                let elem = body.remove(0);
                if body.len() == 0 {
                    return Err(Diag::new(GENERATED_SPAN, DiagKind::UnexpectedEnd));
                }
                if !peek_punct(&body, ';') {
                    let s = body[0].span;
                    return Err(Diag::new(s, DiagKind::ExpectedSemi));
                }
                let semi = body.remove(0);
                let len = match UnsuffixedUsize::parse(&mut body) {
                    Ok(u) => u,
                    Err(d) => {
                        return Err(d);
                    },
                };
                if body.len() > 0 {
                    let s = body[0].span;
                    return Err(Diag::new(s, DiagKind::UnexpectedToken));
                }
                proof {
                    assert(orig_body =~= seq![elem, semi, len.lit]);
                }
                Ok(BufferType { len })
            },
            t => Err(Diag::new(t.span, DiagKind::ExpectedBracket)),
        }
    }
}

/// The tokens inside a group token; empty for any other token.
pub open spec fn group_body(t: Token) -> Seq<Token> {
    match t.kind {
        TokenKind::Group { delim: _, body } => body@,
        _ => Seq::empty(),
    }
}

/// The length literal inside a well-shaped byte-array type token.
pub open spec fn buffer_type_lit(t: Token) -> Token
    recommends
        is_buffer_type_token(t),
{
    match t.kind {
        TokenKind::Group { delim: _, body } => body@[2],
        _ => t,
    }
}

/// How a parsed field relates to the tokens it was read from: its attribute
/// and visibility tokens stand at the front of the group as written, then
/// the storage type token holding the length literal, an optional trailing
/// comma in the unnamed shape, a required one in the named shape, and for
/// the unnamed shape the `;` closing the declaration after the group.
pub open spec fn field_parsed_from(f: Field, s: Seq<Token>) -> bool {
    match f {
        Field::Unnamed { attrs, vis, ty } => {
            &&& s.len() >= 2
            &&& (s[0].kind matches TokenKind::Group { delim: Delim::Paren, .. })
            &&& s[1].kind == TokenKind::Punct(';')
            &&& {
                let b = group_body(s[0]);
                let a = attrs_tokens(attrs@);
                let v = vis.tokens();
                let rest = b.skip((a.len() + v.len()) as int);
                &&& b.len() >= a.len() + v.len() + 1
                &&& b.take((a.len() + v.len()) as int) == a + v
                &&& is_buffer_type_token(rest[0])
                &&& ty.len.lit == buffer_type_lit(rest[0])
                &&& (rest.len() == 1 || (rest.len() == 2 && rest[1].kind == TokenKind::Punct(',')))
            }
        },
        Field::Named { attrs, vis, ident, ty } => {
            &&& s.len() >= 1
            &&& (s[0].kind matches TokenKind::Group { delim: Delim::Brace, .. })
            &&& !is_word(ident, "pub"@)
            &&& {
                let b = group_body(s[0]);
                let a = attrs_tokens(attrs@);
                let v = vis.tokens();
                let k = (a.len() + v.len()) as int;
                &&& b.len() == a.len() + v.len() + 4
                &&& b.take(k) == a + v
                &&& b[k] == ident
                &&& b[k + 1].kind == TokenKind::Punct(':')
                &&& is_buffer_type_token(b[k + 2])
                &&& ty.len.lit == buffer_type_lit(b[k + 2])
                &&& b[k + 3].kind == TokenKind::Punct(',')
            }
        },
    }
}

/// How many top-level tokens a field was read from.
pub open spec fn field_src_len(f: Field) -> int {
    match f {
        Field::Unnamed { .. } => 2,
        Field::Named { .. } => 1,
    }
}

/// How a parsed declaration relates to the whole stream it was read from:
/// its attribute and visibility tokens stand at the front as written, then
/// the `struct` keyword, the declared name, and the single storage field,
/// with nothing after.
pub open spec fn item_parsed_from(it: BufferItem, s: Seq<Token>) -> bool {
    let a = attrs_tokens(it.attrs@);
    let v = it.vis.tokens();
    let k = (a.len() + v.len()) as int;
    &&& s.len() == k + 2 + field_src_len(it.field)
    &&& s.take(k) == a + v
    &&& is_word(s[k], "struct"@)
    &&& s[k + 1] == it.ident
    &&& field_parsed_from(it.field, s.skip(k + 2))
}

/// The declaration's single storage field, in one of the two accepted
/// shapes: the sole unnamed component of a tuple struct, or the sole named
/// field of a braced struct.
pub enum Field {
    Unnamed { attrs: Vec<Attr>, vis: Vis, ty: BufferType },
    Named { attrs: Vec<Attr>, vis: Vis, ident: Token, ty: BufferType },
}

impl Field {
    pub open spec fn wf(&self) -> bool {
        match self {
            Field::Unnamed { attrs, vis, ty } => attrs_wf(attrs@) && vis.wf() && ty.wf(),
            Field::Named { attrs, vis, ident, ty } => attrs_wf(attrs@) && vis.wf() && (
            ident.kind matches TokenKind::Word(_)) && ty.wf(),
        }
    }

    /// The field's type, whichever shape it has.
    pub open spec fn ty_of(&self) -> BufferType {
        match self {
            Field::Unnamed { ty, .. } => *ty,
            Field::Named { ty, .. } => *ty,
        }
    }

    /// Reads the storage field. A parenthesized group followed by `;` gives
    /// the unnamed shape; a braced group gives the named shape; anything
    /// else is rejected at the offending token.
    pub fn parse(toks: &mut Vec<Token>) -> (r: Result<Field, Diag>)
        ensures
            old(toks)@.len() == 0 ==> r == Err::<Field, Diag>(
                Diag { span: GENERATED_SPAN, kind: DiagKind::UnexpectedEnd },
            ) && final(toks)@ == old(toks)@,
            old(toks)@.len() > 0 && !(old(toks)@[0].kind matches TokenKind::Group {
                delim: Delim::Paren,
                ..
            }) && !(old(toks)@[0].kind matches TokenKind::Group { delim: Delim::Brace, .. }) ==> r
                == Err::<Field, Diag>(
                Diag { span: old(toks)@[0].span, kind: DiagKind::ExpectedFieldShape },
            ) && final(toks)@ == old(toks)@,
            r matches Ok(f) ==> f.wf(),
            r matches Ok(f) ==> old(toks)@.len() > 0 && ((old(toks)@[0].kind
                matches TokenKind::Group { delim: Delim::Paren, .. } && (f is Unnamed)
                && final(toks)@ == old(toks)@.skip(2)) || (old(toks)@[0].kind
                matches TokenKind::Group { delim: Delim::Brace, .. } && (f is Named)
                && final(toks)@ == old(toks)@.skip(1))),
            r matches Ok(f) ==> field_parsed_from(f, old(toks)@),
            (exists|f0: Field| f0.wf() && #[trigger] field_parsed_from(f0, old(toks)@)) ==> r
                is Ok,
    {
        if toks.len() == 0 {
            return Err(Diag::new(GENERATED_SPAN, DiagKind::UnexpectedEnd));
        }
        let shape = match &toks[0].kind {
            TokenKind::Group { delim: Delim::Paren, .. } => 0usize,
            TokenKind::Group { delim: Delim::Brace, .. } => 1usize,
            _ => 2usize,
        };
        if shape == 2 {
            let s = toks[0].span;
            return Err(Diag::new(s, DiagKind::ExpectedFieldShape));
        }
        let t = toks.remove(0);
        proof {
            assert(toks@ =~= old(toks)@.skip(1));
        }
        match t.kind {
            TokenKind::Group { delim: Delim::Paren, body } => {
                let mut body = body;
                let ghost b0 = body@;
                let attrs = match parse_outer_attrs(&mut body) {
                    Ok(a) => a,
                    Err(d) => {
                        proof {
                            lemma_field_witness_scan(old(toks)@, b0);
                        }
                        return Err(d);
                    },
                };
                let ghost after_attrs = body@;
                let vis = Vis::parse(&mut body);
                let ghost after_vis = body@;
                proof {
                    assert((exists|f0: Field| f0.wf() && field_parsed_from(f0, old(toks)@)) ==> ({
                        &&& after_vis.len() >= 1
                        &&& is_buffer_type_token(after_vis[0])
                        &&& digits_value(token_digits(buffer_type_lit(after_vis[0])))
                            <= usize::MAX
                        &&& (after_vis.len() == 1 || (after_vis.len() == 2
                            && after_vis[1].kind == TokenKind::Punct(',')))
                        &&& old(toks)@.len() >= 2
                        &&& old(toks)@[1].kind == TokenKind::Punct(';')
                    })) by {
                        if exists|f0: Field| f0.wf() && field_parsed_from(f0, old(toks)@) {
                            let f0 = choose|f0: Field|
                                f0.wf() && field_parsed_from(f0, old(toks)@);
                            lemma_unnamed_witness_rest(
                                f0,
                                old(toks)@,
                                b0,
                                attrs@,
                                after_attrs,
                                vis,
                                after_vis,
                            );
                        }
                    };
                }
                let ty = match BufferType::parse(&mut body) {
                    Ok(ty) => ty,
                    Err(d) => {
                        return Err(d);
                    },
                };
                proof {
                    assert(body@ =~= after_vis.skip(1));
                }
                if peek_punct(&body, ',') {
                    let _comma = body.remove(0);
                    proof {
                        assert(body@ =~= after_vis.skip(2));
                    }
                }
                if body.len() > 0 {
                    let s = body[0].span;
                    return Err(Diag::new(s, DiagKind::UnexpectedToken));
                }
                if toks.len() == 0 {
                    return Err(Diag::new(GENERATED_SPAN, DiagKind::UnexpectedEnd));
                }
                if !peek_punct(toks, ';') {
                    let s = toks[0].span;
                    return Err(Diag::new(s, DiagKind::ExpectedSemi));
                }
                let _semi = toks.remove(0);
                let f = Field::Unnamed { attrs, vis, ty };
                proof {
                    assert(toks@ =~= old(toks)@.skip(2));
                    let a = attrs_tokens(f->Unnamed_attrs@);
                    let v = f->Unnamed_vis.tokens();
                    assert(group_body(old(toks)@[0]) == b0);
                    assert(b0.take((a.len() + v.len()) as int) =~= a + v);
                    assert(b0.skip((a.len() + v.len()) as int) =~= after_vis);
                    assert(field_parsed_from(f, old(toks)@));
                }
                Ok(f)
            },
            TokenKind::Group { delim: Delim::Brace, body } => {
                let mut body = body;
                let ghost b0 = body@;
                let attrs = match parse_outer_attrs(&mut body) {
                    Ok(a) => a,
                    Err(d) => {
                        proof {
                            lemma_field_witness_scan(old(toks)@, b0);
                        }
                        return Err(d);
                    },
                };
                let ghost after_attrs = body@;
                let vis = Vis::parse(&mut body);
                let ghost after_vis = body@;
                proof {
                    assert((exists|f0: Field| f0.wf() && field_parsed_from(f0, old(toks)@)) ==> ({
                        &&& after_vis.len() == 4
                        &&& after_vis[0].kind matches TokenKind::Word(_)
                        &&& !is_word(after_vis[0], "pub"@)
                        &&& after_vis[1].kind == TokenKind::Punct(':')
                        &&& is_buffer_type_token(after_vis[2])
                        &&& digits_value(token_digits(buffer_type_lit(after_vis[2])))
                            <= usize::MAX
                        &&& after_vis[3].kind == TokenKind::Punct(',')
                    })) by {
                        if exists|f0: Field| f0.wf() && field_parsed_from(f0, old(toks)@) {
                            let f0 = choose|f0: Field|
                                f0.wf() && field_parsed_from(f0, old(toks)@);
                            lemma_named_witness_rest(
                                f0,
                                old(toks)@,
                                b0,
                                attrs@,
                                after_attrs,
                                vis,
                                after_vis,
                            );
                        }
                    };
                }
                if body.len() == 0 {
                    return Err(Diag::new(GENERATED_SPAN, DiagKind::UnexpectedEnd));
                }
                let is_id = match &body[0].kind {
                    TokenKind::Word(_) => true,
                    _ => false,
                };
                if !is_id {
                    let s = body[0].span;
                    return Err(Diag::new(s, DiagKind::ExpectedIdent));
                }
                if word_is(&body[0], "pub") {
                    // The visibility keyword is no identifier: the field's
                    // name must be a plain identifier.
                    let s = body[0].span;
                    return Err(Diag::new(s, DiagKind::ExpectedIdent));
                }
                let ident = body.remove(0);
                proof {
                    assert(body@ =~= after_vis.skip(1));
                }
                if body.len() == 0 {
                    return Err(Diag::new(GENERATED_SPAN, DiagKind::UnexpectedEnd));
                }
                if !peek_punct(&body, ':') {
                    let s = body[0].span;
                    return Err(Diag::new(s, DiagKind::ExpectedColon));
                }
                let _colon = body.remove(0);
                proof {
                    assert(body@ =~= after_vis.skip(2));
                }
                let ty = match BufferType::parse(&mut body) {
                    Ok(ty) => ty,
                    Err(d) => {
                        return Err(d);
                    },
                };
                proof {
                    assert(body@ =~= after_vis.skip(3));
                }
                if body.len() == 0 {
                    return Err(Diag::new(GENERATED_SPAN, DiagKind::UnexpectedEnd));
                }
                if !peek_punct(&body, ',') {
                    let s = body[0].span;
                    return Err(Diag::new(s, DiagKind::ExpectedComma));
                }
                let _comma = body.remove(0);
                proof {
                    assert(body@ =~= after_vis.skip(4));
                }
                if body.len() > 0 {
                    let s = body[0].span;
                    return Err(Diag::new(s, DiagKind::UnexpectedToken));
                }
                let f = Field::Named { attrs, vis, ident, ty };
                proof {
                    let a = attrs_tokens(f->Named_attrs@);
                    let v = f->Named_vis.tokens();
                    assert(group_body(old(toks)@[0]) == b0);
                    assert(b0.take((a.len() + v.len()) as int) =~= a + v);
                    assert(b0.skip((a.len() + v.len()) as int) =~= after_vis);
                    assert(field_parsed_from(f, old(toks)@));
                }
                Ok(f)
            },
            _ => {
                proof {
                    assert(false);
                }
                Err(Diag::new(GENERATED_SPAN, DiagKind::ExpectedFieldShape))
            },
        }
    }
}

/// The parsed declaration: attributes, visibility, name, and the single
/// storage field.
pub struct BufferItem {
    pub attrs: Vec<Attr>,
    pub vis: Vis,
    pub ident: Token,
    pub field: Field,
}

impl BufferItem {
    pub open spec fn wf(&self) -> bool {
        &&& attrs_wf(self.attrs@)
        &&& self.vis.wf()
        &&& self.ident.kind matches TokenKind::Word(_)
        &&& self.field.wf()
    }

    /// Reads a whole declaration and insists the stream ends with it:
    /// outer attributes, a visibility, the keyword `struct`, the type name,
    /// and the single storage field.
    pub fn parse(toks: &mut Vec<Token>) -> (r: Result<BufferItem, Diag>)
        ensures
            r matches Ok(item) ==> item.wf() && final(toks)@.len() == 0,
            r matches Ok(item) ==> item_parsed_from(item, old(toks)@),
            (exists|it: BufferItem| it.wf() && #[trigger] item_parsed_from(it, old(toks)@)) ==> r
                is Ok,
    {
        let attrs = match parse_outer_attrs(toks) {
            Ok(a) => a,
            Err(d) => {
                proof {
                    lemma_item_witness_scan(old(toks)@);
                }
                return Err(d);
            },
        };
        let ghost after_attrs = toks@;
        let vis = Vis::parse(toks);
        let ghost after_vis = toks@;
        proof {
            assert((exists|it: BufferItem| it.wf() && item_parsed_from(it, old(toks)@)) ==> ({
                &&& after_vis.len() >= 3
                &&& is_word(after_vis[0], "struct"@)
                &&& (after_vis[1].kind matches TokenKind::Word(_))
                &&& (exists|f0: Field| f0.wf() && #[trigger] field_parsed_from(
                    f0,
                    after_vis.skip(2),
                ))
                &&& ((after_vis.skip(2)[0].kind matches TokenKind::Group {
                    delim: Delim::Paren,
                    ..
                }) ==> after_vis.len() == 4)
                &&& ((after_vis.skip(2)[0].kind matches TokenKind::Group {
                    delim: Delim::Brace,
                    ..
                }) ==> after_vis.len() == 3)
            })) by {
                if exists|it: BufferItem| it.wf() && item_parsed_from(it, old(toks)@) {
                    let it0 = choose|it: BufferItem| it.wf() && item_parsed_from(it, old(toks)@);
                    lemma_item_witness_rest(it0, old(toks)@, attrs@, after_attrs, vis, after_vis);
                    assert(it0.field.wf() && field_parsed_from(it0.field, after_vis.skip(2)));
                }
            };
        }
        if toks.len() == 0 {
            return Err(Diag::new(GENERATED_SPAN, DiagKind::UnexpectedEnd));
        }
        if !word_is(&toks[0], "struct") {
            let s = toks[0].span;
            return Err(Diag::new(s, DiagKind::ExpectedStruct));
        }
        let _struct_kw = toks.remove(0);
        proof {
            assert(toks@ =~= after_vis.skip(1));
        }
        if toks.len() == 0 {
            return Err(Diag::new(GENERATED_SPAN, DiagKind::UnexpectedEnd));
        }
        let is_id = match &toks[0].kind {
            TokenKind::Word(_) => true,
            _ => false,
        };
        if !is_id {
            let s = toks[0].span;
            return Err(Diag::new(s, DiagKind::ExpectedIdent));
        }
        let ident = toks.remove(0);
        proof {
            assert(toks@ =~= after_vis.skip(2));
        }
        let field = match Field::parse(toks) {
            Ok(f) => f,
            Err(d) => {
                return Err(d);
            },
        };
        if toks.len() > 0 {
            let s = toks[0].span;
            return Err(Diag::new(s, DiagKind::UnexpectedToken));
        }
        let item = BufferItem { attrs, vis, ident, field };
        proof {
            let a = attrs_tokens(item.attrs@);
            let v = item.vis.tokens();
            let k = (a.len() + v.len()) as int;
            assert(old(toks)@.take(k) =~= a + v);
            assert(old(toks)@.skip(k) =~= after_vis);
            assert(old(toks)@[k] == after_vis[0]);
            assert(old(toks)@[k + 1] == after_vis[1]);
            assert(old(toks)@.skip(k + 2) =~= after_vis.skip(2));
            assert(field_parsed_from(item.field, old(toks)@.skip(k + 2)));
            assert(old(toks)@.len() == k + 2 + field_src_len(item.field));
        }
        Ok(item)
    }
}

/// An attribute run holds two tokens per attribute.
pub proof fn lemma_attrs_tokens_len(a: Seq<Attr>)
    ensures
        attrs_tokens(a).len() == 2 * a.len(),
    decreases a.len(),
{
    if a.len() > 0 {
        lemma_attrs_tokens_len(a.drop_last());
    }
}

/// An attribute run can be read off the front as well as off the back.
proof fn lemma_attrs_tokens_cons(a: Seq<Attr>)
    requires
        a.len() > 0,
    ensures
        attrs_tokens(a) == seq![a[0].pound, a[0].group] + attrs_tokens(a.skip(1)),
    decreases a.len(),
{
    if a.len() == 1 {
        assert(a.drop_last() =~= Seq::<Attr>::empty());
        assert(a.skip(1) =~= Seq::<Attr>::empty());
        assert(attrs_tokens(a) =~= seq![a[0].pound, a[0].group] + attrs_tokens(a.skip(1)));
    } else {
        lemma_attrs_tokens_cons(a.drop_last());
        assert(a.skip(1).drop_last() =~= a.drop_last().skip(1));
        assert(a.drop_last()[0] == a[0]);
        assert(a.skip(1).last() == a.last());
        assert(attrs_tokens(a) =~= seq![a[0].pound, a[0].group] + attrs_tokens(a.skip(1)));
    }
}

/// A well-formed attribute run followed by anything that does not start
/// with `#` passes the attribute scan.
proof fn lemma_attr_run_scan_ok(a: Seq<Attr>, r: Seq<Token>)
    requires
        attrs_wf(a),
        !(r.len() > 0 && r[0].kind == TokenKind::Punct('#')),
    ensures
        attr_scan_ok(attrs_tokens(a) + r),
    decreases a.len(),
{
    if a.len() == 0 {
        assert(attrs_tokens(a) + r =~= r);
    } else {
        lemma_attrs_tokens_cons(a);
        let s = attrs_tokens(a) + r;
        assert(a[0].wf());
        assert(s[0] == a[0].pound);
        assert(s[1] == a[0].group);
        assert(s.skip(2) =~= attrs_tokens(a.skip(1)) + r);
        assert(attrs_wf(a.skip(1))) by {
            assert(forall|i: int|
                0 <= i < a.skip(1).len() ==> (#[trigger] a.skip(1)[i]) == a[i + 1]);
        }
        lemma_attr_run_scan_ok(a.skip(1), r);
    }
}

/// The split of a stream into a leading well-formed attribute run and a
/// rest not starting with `#` is unique in the tokens.
proof fn lemma_attr_run_unique(a0: Seq<Attr>, r0: Seq<Token>, a1: Seq<Attr>, r1: Seq<Token>)
    requires
        attrs_wf(a0),
        attrs_wf(a1),
        attrs_tokens(a0) + r0 == attrs_tokens(a1) + r1,
        !(r0.len() > 0 && r0[0].kind == TokenKind::Punct('#')),
        !(r1.len() > 0 && r1[0].kind == TokenKind::Punct('#')),
    ensures
        attrs_tokens(a0) == attrs_tokens(a1),
        r0 == r1,
    decreases a0.len(),
{
    lemma_attrs_tokens_len(a0);
    lemma_attrs_tokens_len(a1);
    if a0.len() == 0 {
        if a1.len() > 0 {
            lemma_attrs_tokens_cons(a1);
            assert(a1[0].wf());
            assert((attrs_tokens(a1) + r1)[0] == a1[0].pound);
            assert((attrs_tokens(a0) + r0)[0] == r0[0]);
            assert(false);
        }
        assert(attrs_tokens(a0) =~= attrs_tokens(a1));
        assert(r0 =~= r1);
    } else if a1.len() == 0 {
        lemma_attrs_tokens_cons(a0);
        assert(a0[0].wf());
        assert((attrs_tokens(a0) + r0)[0] == a0[0].pound);
        assert((attrs_tokens(a1) + r1)[0] == r1[0]);
        assert(false);
    } else {
        lemma_attrs_tokens_cons(a0);
        lemma_attrs_tokens_cons(a1);
        assert(attrs_wf(a0.skip(1))) by {
            assert(forall|i: int|
                0 <= i < a0.skip(1).len() ==> (#[trigger] a0.skip(1)[i]) == a0[i + 1]);
        }
        assert(attrs_wf(a1.skip(1))) by {
            assert(forall|i: int|
                0 <= i < a1.skip(1).len() ==> (#[trigger] a1.skip(1)[i]) == a1[i + 1]);
        }
        assert(attrs_tokens(a0.skip(1)) + r0 =~= attrs_tokens(a1.skip(1)) + r1) by {
            assert((attrs_tokens(a0) + r0).skip(2) =~= attrs_tokens(a0.skip(1)) + r0);
            assert((attrs_tokens(a1) + r1).skip(2) =~= attrs_tokens(a1.skip(1)) + r1);
        }
        lemma_attr_run_unique(a0.skip(1), r0, a1.skip(1), r1);
        assert(a0[0].pound == a1[0].pound) by {
            assert((attrs_tokens(a0) + r0)[0] == a0[0].pound);
            assert((attrs_tokens(a1) + r1)[0] == a1[0].pound);
        }
        assert(a0[0].group == a1[0].group) by {
            assert((attrs_tokens(a0) + r0)[1] == a0[0].group);
            assert((attrs_tokens(a1) + r1)[1] == a1[0].group);
        }
        assert(attrs_tokens(a0) =~= attrs_tokens(a1));
    }
}

/// A well-formed visibility split of a stream agrees with the one the
/// visibility parser chooses, provided what follows the visibility is
/// neither the `pub` keyword nor a parenthesized group. The last three
/// hypotheses are exactly the parser's choice conditions on the stream.
proof fn lemma_vis_match(v0: Vis, t0: Seq<Token>, v1: Vis, t1: Seq<Token>)
    requires
        v0.wf(),
        v0.tokens() + t0 == v1.tokens() + t1,
        t0.len() > 0,
        !is_word(t0[0], "pub"@),
        !(t0[0].kind matches TokenKind::Group { delim: Delim::Paren, .. }),
        !(v0.tokens().len() + t0.len() > 0 && is_word((v0.tokens() + t0)[0], "pub"@)) ==> v1
            == Vis::Inherited,
        v0.tokens().len() + t0.len() > 0 && is_word((v0.tokens() + t0)[0], "pub"@) && v0.tokens().len()
            + t0.len() > 1 && is_vis_scope((v0.tokens() + t0)[1]) ==> v1 matches Vis::Scoped { .. },
        v0.tokens().len() + t0.len() > 0 && is_word((v0.tokens() + t0)[0], "pub"@) && !(
        v0.tokens().len() + t0.len() > 1 && is_vis_scope((v0.tokens() + t0)[1])) ==> v1
            matches Vis::Public { .. },
    ensures
        v0.tokens() == v1.tokens(),
        t0 == t1,
{
    let s = v0.tokens() + t0;
    match v0 {
        Vis::Inherited => {
            assert(s =~= t0);
            assert(!is_word(s[0], "pub"@));
            assert(v1 == Vis::Inherited);
            assert(t0 =~= t1);
        },
        Vis::Public { tok } => {
            assert(s[0] == tok);
            assert(is_word(s[0], "pub"@));
            assert(s[1] == t0[0]);
            assert(!is_vis_scope(s[1]));
            assert(v1 matches Vis::Public { .. });
            assert(t0 =~= s.skip(1));
            assert(t1 =~= s.skip(1));
        },
        Vis::Scoped { tok, scope } => {
            assert(s[0] == tok);
            assert(is_word(s[0], "pub"@));
            assert(s[1] == scope);
            assert(is_vis_scope(s[1]));
            assert(v1 matches Vis::Scoped { .. });
            assert(t0 =~= s.skip(2));
            assert(t1 =~= s.skip(2));
        },
    }
}

/// If some well-formed field was written in the stream, the body of its
/// group passes the attribute scan.
proof fn lemma_field_witness_scan(s: Seq<Token>, b0: Seq<Token>)
    requires
        s.len() > 0,
        group_body(s[0]) == b0,
    ensures
        (exists|f0: Field| f0.wf() && field_parsed_from(f0, s)) ==> attr_scan_ok(b0),
{
    if exists|f0: Field| f0.wf() && field_parsed_from(f0, s) {
        let f0 = choose|f0: Field| f0.wf() && field_parsed_from(f0, s);
        match f0 {
            Field::Unnamed { attrs: a0, vis: v0, ty: ty0 } => {
                let arun = attrs_tokens(a0@);
                let k0 = (arun.len() + v0.tokens().len()) as int;
                let rest0 = b0.skip(k0);
                lemma_attrs_tokens_len(a0@);
                assert(b0 =~= b0.take(k0) + b0.skip(k0));
                let r0full = v0.tokens() + rest0;
                assert(b0 =~= arun + r0full);
                assert(is_buffer_type_token(rest0[0]));
                assert(!(r0full.len() > 0 && r0full[0].kind == TokenKind::Punct('#'))) by {
                    match v0 {
                        Vis::Inherited => {
                            assert(r0full =~= rest0);
                        },
                        Vis::Public { tok } => {
                            assert(r0full[0] == tok);
                        },
                        Vis::Scoped { tok, .. } => {
                            assert(r0full[0] == tok);
                        },
                    }
                };
                lemma_attr_run_scan_ok(a0@, r0full);
                assert(attr_scan_ok(b0));
            },
            Field::Named { attrs: a0, vis: v0, ident: id0, ty: ty0 } => {
                let arun = attrs_tokens(a0@);
                let k0 = (arun.len() + v0.tokens().len()) as int;
                let rest0 = b0.skip(k0);
                lemma_attrs_tokens_len(a0@);
                assert(b0 =~= b0.take(k0) + b0.skip(k0));
                let r0full = v0.tokens() + rest0;
                assert(b0 =~= arun + r0full);
                assert(rest0[0] == id0);
                assert(!(r0full.len() > 0 && r0full[0].kind == TokenKind::Punct('#'))) by {
                    match v0 {
                        Vis::Inherited => {
                            assert(r0full =~= rest0);
                        },
                        Vis::Public { tok } => {
                            assert(r0full[0] == tok);
                        },
                        Vis::Scoped { tok, .. } => {
                            assert(r0full[0] == tok);
                        },
                    }
                };
                lemma_attr_run_scan_ok(a0@, r0full);
                assert(attr_scan_ok(b0));
            },
        }
    }
}

/// If a well-formed unnamed field was written in the stream, then after the
/// attribute run and the visibility are read off the group's body, exactly
/// its storage type and optional trailing comma remain, and the group is
/// followed by the closing `;`.
proof fn lemma_unnamed_witness_rest(
    f0: Field,
    s: Seq<Token>,
    b0: Seq<Token>,
    attrs1: Seq<Attr>,
    after_attrs: Seq<Token>,
    vis1: Vis,
    after_vis: Seq<Token>,
)
    requires
        f0.wf(),
        field_parsed_from(f0, s),
        s.len() > 0,
        s[0].kind matches TokenKind::Group { delim: Delim::Paren, .. },
        group_body(s[0]) == b0,
        attrs_wf(attrs1),
        b0 == attrs_tokens(attrs1) + after_attrs,
        !(after_attrs.len() > 0 && after_attrs[0].kind == TokenKind::Punct('#')),
        vis1.wf(),
        after_attrs == vis1.tokens() + after_vis,
        !(after_attrs.len() > 0 && is_word(after_attrs[0], "pub"@)) ==> vis1 == Vis::Inherited,
        after_attrs.len() > 0 && is_word(after_attrs[0], "pub"@) && after_attrs.len() > 1
            && is_vis_scope(after_attrs[1]) ==> vis1 matches Vis::Scoped { .. },
        after_attrs.len() > 0 && is_word(after_attrs[0], "pub"@) && !(after_attrs.len() > 1
            && is_vis_scope(after_attrs[1])) ==> vis1 matches Vis::Public { .. },
    ensures
        after_vis.len() >= 1,
        is_buffer_type_token(after_vis[0]),
        digits_value(token_digits(buffer_type_lit(after_vis[0]))) <= usize::MAX,
        after_vis.len() == 1 || (after_vis.len() == 2 && after_vis[1].kind == TokenKind::Punct(
            ',',
        )),
        s.len() >= 2,
        s[1].kind == TokenKind::Punct(';'),
{
    match f0 {
        Field::Unnamed { attrs: a0, vis: v0, ty: ty0 } => {
            let arun = attrs_tokens(a0@);
            let k0 = (arun.len() + v0.tokens().len()) as int;
            let rest0 = b0.skip(k0);
            lemma_attrs_tokens_len(a0@);
            assert(b0 =~= b0.take(k0) + b0.skip(k0));
            let r0full = v0.tokens() + rest0;
            assert(b0 =~= arun + r0full);
            assert(rest0.len() >= 1);
            assert(is_buffer_type_token(rest0[0]));
            assert(!(r0full.len() > 0 && r0full[0].kind == TokenKind::Punct('#'))) by {
                match v0 {
                    Vis::Inherited => {
                        assert(r0full =~= rest0);
                    },
                    Vis::Public { tok } => {
                        assert(r0full[0] == tok);
                    },
                    Vis::Scoped { tok, .. } => {
                        assert(r0full[0] == tok);
                    },
                }
            };
            lemma_attr_run_unique(a0@, r0full, attrs1, after_attrs);
            assert(r0full == after_attrs);
            assert(!is_word(rest0[0], "pub"@));
            assert(!(rest0[0].kind matches TokenKind::Group { delim: Delim::Paren, .. }));
            lemma_vis_match(v0, rest0, vis1, after_vis);
            assert(after_vis == rest0);
            assert(ty0.len.wf());
            assert(ty0.len.lit == buffer_type_lit(rest0[0]));
            assert(digits_value(token_digits(buffer_type_lit(rest0[0]))) == ty0.len.value as nat);
        },
        Field::Named { .. } => {
            assert(false);
        },
    }
}

/// If a well-formed named field was written in the stream, then after the
/// attribute run and the visibility are read off the group's body, exactly
/// its name, `:`, storage type and trailing comma remain.
proof fn lemma_named_witness_rest(
    f0: Field,
    s: Seq<Token>,
    b0: Seq<Token>,
    attrs1: Seq<Attr>,
    after_attrs: Seq<Token>,
    vis1: Vis,
    after_vis: Seq<Token>,
)
    requires
        f0.wf(),
        field_parsed_from(f0, s),
        s.len() > 0,
        s[0].kind matches TokenKind::Group { delim: Delim::Brace, .. },
        group_body(s[0]) == b0,
        attrs_wf(attrs1),
        b0 == attrs_tokens(attrs1) + after_attrs,
        !(after_attrs.len() > 0 && after_attrs[0].kind == TokenKind::Punct('#')),
        vis1.wf(),
        after_attrs == vis1.tokens() + after_vis,
        !(after_attrs.len() > 0 && is_word(after_attrs[0], "pub"@)) ==> vis1 == Vis::Inherited,
        after_attrs.len() > 0 && is_word(after_attrs[0], "pub"@) && after_attrs.len() > 1
            && is_vis_scope(after_attrs[1]) ==> vis1 matches Vis::Scoped { .. },
        after_attrs.len() > 0 && is_word(after_attrs[0], "pub"@) && !(after_attrs.len() > 1
            && is_vis_scope(after_attrs[1])) ==> vis1 matches Vis::Public { .. },
    ensures
        after_vis.len() == 4,
        after_vis[0].kind matches TokenKind::Word(_),
        !is_word(after_vis[0], "pub"@),
        after_vis[1].kind == TokenKind::Punct(':'),
        is_buffer_type_token(after_vis[2]),
        digits_value(token_digits(buffer_type_lit(after_vis[2]))) <= usize::MAX,
        after_vis[3].kind == TokenKind::Punct(','),
{
    match f0 {
        Field::Named { attrs: a0, vis: v0, ident: id0, ty: ty0 } => {
            let arun = attrs_tokens(a0@);
            let k0 = (arun.len() + v0.tokens().len()) as int;
            let rest0 = b0.skip(k0);
            lemma_attrs_tokens_len(a0@);
            assert(b0 =~= b0.take(k0) + b0.skip(k0));
            let r0full = v0.tokens() + rest0;
            assert(b0 =~= arun + r0full);
            assert(rest0.len() == 4);
            assert(rest0[0] == id0);
            assert(!(r0full.len() > 0 && r0full[0].kind == TokenKind::Punct('#'))) by {
                match v0 {
                    Vis::Inherited => {
                        assert(r0full =~= rest0);
                    },
                    Vis::Public { tok } => {
                        assert(r0full[0] == tok);
                    },
                    Vis::Scoped { tok, .. } => {
                        assert(r0full[0] == tok);
                    },
                }
            };
            lemma_attr_run_unique(a0@, r0full, attrs1, after_attrs);
            assert(r0full == after_attrs);
            assert(!is_word(rest0[0], "pub"@));
            assert(!(rest0[0].kind matches TokenKind::Group { delim: Delim::Paren, .. }));
            lemma_vis_match(v0, rest0, vis1, after_vis);
            assert(after_vis == rest0);
            assert(ty0.len.wf());
            assert(ty0.len.lit == buffer_type_lit(rest0[2]));
            assert(digits_value(token_digits(buffer_type_lit(rest0[2]))) == ty0.len.value as nat);
        },
        Field::Unnamed { .. } => {
            assert(false);
        },
    }
}

/// If some well-formed declaration was written in the stream, the stream
/// passes the attribute scan.
proof fn lemma_item_witness_scan(s: Seq<Token>)
    ensures
        (exists|it: BufferItem| it.wf() && item_parsed_from(it, s)) ==> attr_scan_ok(s),
{
    if exists|it: BufferItem| it.wf() && item_parsed_from(it, s) {
        let it0 = choose|it: BufferItem| it.wf() && item_parsed_from(it, s);
        let arun = attrs_tokens(it0.attrs@);
        let v0 = it0.vis;
        let k0 = (arun.len() + v0.tokens().len()) as int;
        let rest0 = s.skip(k0);
        lemma_attrs_tokens_len(it0.attrs@);
        assert(s =~= s.take(k0) + s.skip(k0));
        let r0full = v0.tokens() + rest0;
        assert(s =~= arun + r0full);
        assert(is_word(rest0[0], "struct"@));
        assert(!(r0full.len() > 0 && r0full[0].kind == TokenKind::Punct('#'))) by {
            match v0 {
                Vis::Inherited => {
                    assert(r0full =~= rest0);
                },
                Vis::Public { tok } => {
                    assert(r0full[0] == tok);
                },
                Vis::Scoped { tok, .. } => {
                    assert(r0full[0] == tok);
                },
            }
        };
        lemma_attr_run_scan_ok(it0.attrs@, r0full);
        assert(attr_scan_ok(s));
    }
}

/// If a well-formed declaration was written in the stream, then after the
/// attribute run and the visibility are read off the front, exactly the
/// `struct` keyword, the name and the single storage field remain.
proof fn lemma_item_witness_rest(
    it0: BufferItem,
    s: Seq<Token>,
    attrs1: Seq<Attr>,
    after_attrs: Seq<Token>,
    vis1: Vis,
    after_vis: Seq<Token>,
)
    requires
        it0.wf(),
        item_parsed_from(it0, s),
        attrs_wf(attrs1),
        s == attrs_tokens(attrs1) + after_attrs,
        !(after_attrs.len() > 0 && after_attrs[0].kind == TokenKind::Punct('#')),
        vis1.wf(),
        after_attrs == vis1.tokens() + after_vis,
        !(after_attrs.len() > 0 && is_word(after_attrs[0], "pub"@)) ==> vis1 == Vis::Inherited,
        after_attrs.len() > 0 && is_word(after_attrs[0], "pub"@) && after_attrs.len() > 1
            && is_vis_scope(after_attrs[1]) ==> vis1 matches Vis::Scoped { .. },
        after_attrs.len() > 0 && is_word(after_attrs[0], "pub"@) && !(after_attrs.len() > 1
            && is_vis_scope(after_attrs[1])) ==> vis1 matches Vis::Public { .. },
    ensures
        after_vis.len() >= 3,
        is_word(after_vis[0], "struct"@),
        after_vis[1].kind matches TokenKind::Word(_),
        it0.field.wf() && field_parsed_from(it0.field, after_vis.skip(2)),
        after_vis.len() == 2 + field_src_len(it0.field),
{
    let arun = attrs_tokens(it0.attrs@);
    let v0 = it0.vis;
    let k0 = (arun.len() + v0.tokens().len()) as int;
    let rest0 = s.skip(k0);
    lemma_attrs_tokens_len(it0.attrs@);
    assert(s =~= s.take(k0) + s.skip(k0));
    let r0full = v0.tokens() + rest0;
    assert(s =~= arun + r0full);
    assert(is_word(rest0[0], "struct"@));
    assert(rest0[1] == it0.ident);
    assert(!(r0full.len() > 0 && r0full[0].kind == TokenKind::Punct('#'))) by {
        match v0 {
            Vis::Inherited => {
                assert(r0full =~= rest0);
            },
            Vis::Public { tok } => {
                assert(r0full[0] == tok);
            },
            Vis::Scoped { tok, .. } => {
                assert(r0full[0] == tok);
            },
        }
    };
    lemma_attr_run_unique(it0.attrs@, r0full, attrs1, after_attrs);
    assert(r0full == after_attrs);
    assert(!is_word(rest0[0], "pub"@)) by {
        reveal_strlit("struct");
        reveal_strlit("pub");
        assert("struct"@.len() == 6);
        assert("pub"@.len() == 3);
    }
    assert(!(rest0[0].kind matches TokenKind::Group { delim: Delim::Paren, .. }));
    lemma_vis_match(v0, rest0, vis1, after_vis);
    assert(after_vis == rest0);
    assert(after_vis.skip(2) =~= s.skip(k0 + 2));
}

/// Two well-formed visibility splits of one stream agree when what follows
/// each is neither the `pub` keyword nor a parenthesized group.
proof fn lemma_vis_split_unique(v0: Vis, t0: Seq<Token>, v1: Vis, t1: Seq<Token>)
    requires
        v0.wf(),
        v1.wf(),
        v0.tokens() + t0 == v1.tokens() + t1,
        t0.len() > 0,
        t1.len() > 0,
        !is_word(t0[0], "pub"@),
        !is_word(t1[0], "pub"@),
        !(t0[0].kind matches TokenKind::Group { delim: Delim::Paren, .. }),
        !(t1[0].kind matches TokenKind::Group { delim: Delim::Paren, .. }),
    ensures
        v0.tokens() == v1.tokens(),
        t0 == t1,
{
    let s = v0.tokens() + t0;
    match (v0, v1) {
        (Vis::Inherited, Vis::Inherited) => {
            assert(v0.tokens() + t0 =~= t0);
            assert(v1.tokens() + t1 =~= t1);
            assert(t0 =~= t1);
        },
        (Vis::Inherited, Vis::Public { tok }) => {
            assert(v0.tokens() + t0 =~= t0);
            assert(s[0] == tok);
            assert(false);
        },
        (Vis::Inherited, Vis::Scoped { tok, .. }) => {
            assert(v0.tokens() + t0 =~= t0);
            assert(s[0] == tok);
            assert(false);
        },
        (Vis::Public { tok }, Vis::Inherited) => {
            assert(v1.tokens() + t1 =~= t1);
            assert(s[0] == t1[0]);
            assert(s[0] == tok);
            assert(false);
        },
        (Vis::Scoped { tok, .. }, Vis::Inherited) => {
            assert(v1.tokens() + t1 =~= t1);
            assert(s[0] == t1[0]);
            assert(s[0] == tok);
            assert(false);
        },
        (Vis::Public { .. }, Vis::Public { .. }) => {
            assert(t0 =~= (v0.tokens() + t0).skip(1));
            assert(t1 =~= (v1.tokens() + t1).skip(1));
            assert(t0 =~= t1);
        },
        (Vis::Public { .. }, Vis::Scoped { scope, .. }) => {
            assert(s[1] == t0[0]);
            assert(s[1] == scope);
            assert(is_vis_scope(scope));
            assert(false);
        },
        (Vis::Scoped { scope, .. }, Vis::Public { .. }) => {
            assert(s[1] == t1[0]);
            assert(s[1] == scope);
            assert(is_vis_scope(scope));
            assert(false);
        },
        (Vis::Scoped { .. }, Vis::Scoped { .. }) => {
            assert(t0 =~= (v0.tokens() + t0).skip(2));
            assert(t1 =~= (v1.tokens() + t1).skip(2));
            assert(t0 =~= t1);
        },
    }
}

/// Two well-formed fields written in the same stream carry the same length
/// literal: the split into attributes, visibility and storage type is
/// unique in the tokens.
proof fn lemma_field_witness_lit(f0: Field, f1: Field, s: Seq<Token>)
    requires
        f0.wf(),
        f1.wf(),
        field_parsed_from(f0, s),
        field_parsed_from(f1, s),
    ensures
        f0.ty_of().len.lit == f1.ty_of().len.lit,
{
    let b = group_body(s[0]);
    match (f0, f1) {
        (
            Field::Unnamed { attrs: a0, vis: v0, ty: ty0 },
            Field::Unnamed { attrs: a1, vis: v1, ty: ty1 },
        ) => {
            let k0 = (attrs_tokens(a0@).len() + v0.tokens().len()) as int;
            let k1 = (attrs_tokens(a1@).len() + v1.tokens().len()) as int;
            let rest0 = b.skip(k0);
            let rest1 = b.skip(k1);
            lemma_attrs_tokens_len(a0@);
            lemma_attrs_tokens_len(a1@);
            assert(b =~= b.take(k0) + b.skip(k0));
            assert(b =~= b.take(k1) + b.skip(k1));
            let r0 = v0.tokens() + rest0;
            let r1 = v1.tokens() + rest1;
            assert(b =~= attrs_tokens(a0@) + r0);
            assert(b =~= attrs_tokens(a1@) + r1);
            assert(!(r0.len() > 0 && r0[0].kind == TokenKind::Punct('#'))) by {
                match v0 {
                    Vis::Inherited => {
                        assert(r0 =~= rest0);
                    },
                    Vis::Public { tok } => {
                        assert(r0[0] == tok);
                    },
                    Vis::Scoped { tok, .. } => {
                        assert(r0[0] == tok);
                    },
                }
            };
            assert(!(r1.len() > 0 && r1[0].kind == TokenKind::Punct('#'))) by {
                match v1 {
                    Vis::Inherited => {
                        assert(r1 =~= rest1);
                    },
                    Vis::Public { tok } => {
                        assert(r1[0] == tok);
                    },
                    Vis::Scoped { tok, .. } => {
                        assert(r1[0] == tok);
                    },
                }
            };
            lemma_attr_run_unique(a0@, r0, a1@, r1);
            assert(is_buffer_type_token(rest0[0]));
            assert(is_buffer_type_token(rest1[0]));
            lemma_vis_split_unique(v0, rest0, v1, rest1);
            assert(rest0 == rest1);
            assert(ty0.len.lit == buffer_type_lit(rest0[0]));
            assert(ty1.len.lit == buffer_type_lit(rest1[0]));
        },
        (
            Field::Named { attrs: a0, vis: v0, ident: id0, ty: ty0 },
            Field::Named { attrs: a1, vis: v1, ident: id1, ty: ty1 },
        ) => {
            let k0 = (attrs_tokens(a0@).len() + v0.tokens().len()) as int;
            let k1 = (attrs_tokens(a1@).len() + v1.tokens().len()) as int;
            let rest0 = b.skip(k0);
            let rest1 = b.skip(k1);
            lemma_attrs_tokens_len(a0@);
            lemma_attrs_tokens_len(a1@);
            assert(b =~= b.take(k0) + b.skip(k0));
            assert(b =~= b.take(k1) + b.skip(k1));
            let r0 = v0.tokens() + rest0;
            let r1 = v1.tokens() + rest1;
            assert(b =~= attrs_tokens(a0@) + r0);
            assert(b =~= attrs_tokens(a1@) + r1);
            assert(rest0[0] == id0);
            assert(rest1[0] == id1);
            assert(!(r0.len() > 0 && r0[0].kind == TokenKind::Punct('#'))) by {
                match v0 {
                    Vis::Inherited => {
                        assert(r0 =~= rest0);
                    },
                    Vis::Public { tok } => {
                        assert(r0[0] == tok);
                    },
                    Vis::Scoped { tok, .. } => {
                        assert(r0[0] == tok);
                    },
                }
            };
            assert(!(r1.len() > 0 && r1[0].kind == TokenKind::Punct('#'))) by {
                match v1 {
                    Vis::Inherited => {
                        assert(r1 =~= rest1);
                    },
                    Vis::Public { tok } => {
                        assert(r1[0] == tok);
                    },
                    Vis::Scoped { tok, .. } => {
                        assert(r1[0] == tok);
                    },
                }
            };
            lemma_attr_run_unique(a0@, r0, a1@, r1);
            lemma_vis_split_unique(v0, rest0, v1, rest1);
            assert(rest0 == rest1);
            assert(ty0.len.lit == buffer_type_lit(rest0[2]));
            assert(ty1.len.lit == buffer_type_lit(rest1[2]));
        },
        (Field::Unnamed { .. }, Field::Named { .. }) => {
            assert(false);
        },
        (Field::Named { .. }, Field::Unnamed { .. }) => {
            assert(false);
        },
    }
}

/// Two well-formed declarations written in the same stream carry the same
/// length literal.
pub proof fn lemma_item_witness_lit(it0: BufferItem, it1: BufferItem, s: Seq<Token>)
    requires
        it0.wf(),
        it1.wf(),
        item_parsed_from(it0, s),
        item_parsed_from(it1, s),
    ensures
        it0.field.ty_of().len.lit == it1.field.ty_of().len.lit,
{
    let k0 = (attrs_tokens(it0.attrs@).len() + it0.vis.tokens().len()) as int;
    let k1 = (attrs_tokens(it1.attrs@).len() + it1.vis.tokens().len()) as int;
    let rest0 = s.skip(k0);
    let rest1 = s.skip(k1);
    lemma_attrs_tokens_len(it0.attrs@);
    lemma_attrs_tokens_len(it1.attrs@);
    assert(s =~= s.take(k0) + s.skip(k0));
    assert(s =~= s.take(k1) + s.skip(k1));
    let r0 = it0.vis.tokens() + rest0;
    let r1 = it1.vis.tokens() + rest1;
    assert(s =~= attrs_tokens(it0.attrs@) + r0);
    assert(s =~= attrs_tokens(it1.attrs@) + r1);
    assert(is_word(rest0[0], "struct"@));
    assert(is_word(rest1[0], "struct"@));
    assert(!(r0.len() > 0 && r0[0].kind == TokenKind::Punct('#'))) by {
        match it0.vis {
            Vis::Inherited => {
                assert(r0 =~= rest0);
            },
            Vis::Public { tok } => {
                assert(r0[0] == tok);
            },
            Vis::Scoped { tok, .. } => {
                assert(r0[0] == tok);
            },
        }
    };
    assert(!(r1.len() > 0 && r1[0].kind == TokenKind::Punct('#'))) by {
        match it1.vis {
            Vis::Inherited => {
                assert(r1 =~= rest1);
            },
            Vis::Public { tok } => {
                assert(r1[0] == tok);
            },
            Vis::Scoped { tok, .. } => {
                assert(r1[0] == tok);
            },
        }
    };
    lemma_attr_run_unique(it0.attrs@, r0, it1.attrs@, r1);
    assert(!is_word(rest0[0], "pub"@) && !is_word(rest1[0], "pub"@)) by {
        reveal_strlit("struct");
        reveal_strlit("pub");
        assert("struct"@.len() == 6);
        assert("pub"@.len() == 3);
    }
    lemma_vis_split_unique(it0.vis, rest0, it1.vis, rest1);
    assert(rest0 == rest1);
    assert(rest0.skip(2) =~= s.skip(k0 + 2));
    assert(rest1.skip(2) =~= s.skip(k1 + 2));
    assert(s.skip(k0 + 2) == s.skip(k1 + 2));
    lemma_field_witness_lit(it0.field, it1.field, s.skip(k0 + 2));
}

/// Rendering a number in decimal and reading the digits back gives the
/// number again: the diagnostic renderer and the literal parser agree.
pub proof fn lemma_decimal_round_trip(n: nat)
    ensures
        all_digits(crate::decimal::dec_rep(n)),
        digits_value(crate::decimal::dec_rep(n)) == n,
    decreases n,
{
    let s = crate::decimal::dec_rep(n);
    if n < 10 {
        assert(s.drop_last() =~= Seq::<char>::empty());
        assert(s[0] == crate::decimal::dec_digit(n));
        assert(is_digit(crate::decimal::dec_digit(n)));
        assert(digit_val(crate::decimal::dec_digit(n)) == n);
        assert(digits_value(Seq::<char>::empty()) == 0);
        assert(digits_value(s) == n);
    } else {
        lemma_decimal_round_trip(n / 10);
        let p = crate::decimal::dec_rep(n / 10);
        assert(s == p.push(crate::decimal::dec_digit(n % 10)));
        assert(s.drop_last() =~= p);
        assert(s.last() == crate::decimal::dec_digit(n % 10));
        assert(digit_val(crate::decimal::dec_digit(n % 10)) == n % 10);
        assert(digits_value(s) == n / 10 * 10 + n % 10);
        assert forall|i: int| 0 <= i < s.len() implies is_digit(s[i]) by {
            if i < p.len() {
                assert(s[i] == p[i]);
            } else {
                assert(s[i] == crate::decimal::dec_digit(n % 10));
            }
        }
    }
}

/// A longer run of digits never names a smaller number: the value of a
/// digit prefix bounds the value of the whole from below.
proof fn lemma_digits_value_grows(s: Seq<char>, i: int)
    requires
        0 <= i <= s.len(),
    ensures
        digits_value(s.take(i)) <= digits_value(s),
    decreases s.len() - i,
{
    if i < s.len() {
        assert(s.take(i + 1).drop_last() =~= s.take(i));
        lemma_digits_value_grows(s, i + 1);
    } else {
        assert(s.take(i) =~= s);
    }
}

} // verus!
