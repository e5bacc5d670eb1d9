//! The generator: validates a parsed declaration against the layout rules
//! and emits the aligned type together with its buffer-contract
//! implementation, or a diagnostic at the offending literal.

use vstd::prelude::*;
use crate::token::{Token, TokenKind, Delim, GENERATED_SPAN};
use crate::diag::{Diag, DiagKind};
use crate::parse::{
    Attr, Vis, Field, BufferItem, UnsuffixedUsize, UnsuffixedPowerOfTwoUsize, attrs_tokens,
    is_word,
};
use crate::layout::{is_power_of_two, layout_ok};

verus! {

/// A generated token that reads as the word `w`.
pub open spec fn gen_word(t: Token, w: Seq<char>) -> bool {
    t.span == GENERATED_SPAN && is_word(t, w)
}

/// A generated punctuation token.
pub open spec fn gen_punct(t: Token, c: char) -> bool {
    t == (Token { span: GENERATED_SPAN, kind: TokenKind::Punct(c) })
}

/// A generated unsuffixed literal `0`.
pub open spec fn gen_zero(t: Token) -> bool {
    &&& t.span == GENERATED_SPAN
    &&& t.kind matches TokenKind::IntLit { digits, suffix } && digits@ == "0"@ && suffix@.len()
        == 0
}

/// Validates the declared length against the alignment: the length must be
/// nonzero and a multiple of the alignment, in that order, each rejection
/// pointing at the length literal.
pub fn check_declared_layout(len: &UnsuffixedUsize, align: &UnsuffixedPowerOfTwoUsize) -> (r:
    Result<(), Diag>)
    requires
        align.wf(),
    ensures
        len.value == 0 ==> r == Err::<(), Diag>(
            Diag { span: len.lit.span, kind: DiagKind::ZeroLength },
        ),
        len.value != 0 && len.value as nat % align.inner.value as nat != 0 ==> r == Err::<(), Diag>(
            Diag {
                span: len.lit.span,
                kind: DiagKind::NotMultiple { len: len.value, align: align.inner.value },
            },
        ),
        r is Ok <==> layout_ok(len.value as nat, align.inner.value as nat),
{
    proof {
        assert(align.inner.value > 0) by {
            assert(is_power_of_two(align.inner.value as nat));
            assert(!is_power_of_two(0));
        };
    }
    if len.value == 0 {
        return Err(Diag::new(len.lit.span, DiagKind::ZeroLength));
    }
    if len.value % align.inner.value != 0 {
        return Err(
            Diag::new(
                len.lit.span,
                DiagKind::NotMultiple { len: len.value, align: align.inner.value },
            ),
        );
    }
    Ok(())
}

/// Whether a token stream is a valid alignment argument: exactly one plain
/// unsuffixed decimal literal whose value fits the size type and is a power
/// of two.
pub open spec fn align_arg_ok(args: Seq<Token>) -> bool {
    &&& args.len() == 1
    &&& crate::parse::is_plain_int(args[0])
    &&& crate::parse::digits_value(crate::parse::token_digits(args[0])) <= usize::MAX
    &&& is_power_of_two(crate::parse::digits_value(crate::parse::token_digits(args[0])))
}

/// Reads the generator's alignment argument: one unsuffixed power-of-two
/// literal making up the whole argument stream.
pub fn parse_align_arg(args: &mut Vec<Token>) -> (r: Result<UnsuffixedPowerOfTwoUsize, Diag>)
    ensures
        r is Ok <==> align_arg_ok(old(args)@),
        r matches Ok(a) ==> a.wf() && old(args)@.len() == 1 && a.inner.lit == old(args)@[0]
            && final(args)@.len() == 0,
        old(args)@.len() > 0 && crate::parse::is_plain_int(old(args)@[0])
            && crate::parse::digits_value(crate::parse::token_digits(old(args)@[0])) <= usize::MAX
            && !is_power_of_two(crate::parse::digits_value(crate::parse::token_digits(old(args)@[0])))
            ==> r == Err::<UnsuffixedPowerOfTwoUsize, Diag>(
            Diag {
                span: old(args)@[0].span,
                kind: DiagKind::NotPowerOfTwo {
                    found: crate::parse::digits_value(
                        crate::parse::token_digits(old(args)@[0]),
                    ) as usize,
                },
            },
        ),
        old(args)@.len() == 0 ==> r == Err::<UnsuffixedPowerOfTwoUsize, Diag>(
            Diag { span: GENERATED_SPAN, kind: DiagKind::UnexpectedEnd },
        ),
        old(args)@.len() > 1 && crate::parse::is_plain_int(old(args)@[0])
            && crate::parse::digits_value(crate::parse::token_digits(old(args)@[0])) <= usize::MAX
            && is_power_of_two(crate::parse::digits_value(crate::parse::token_digits(old(args)@[0])))
            ==> r == Err::<UnsuffixedPowerOfTwoUsize, Diag>(
            Diag { span: old(args)@[1].span, kind: DiagKind::UnexpectedToken },
        ),
{
    let a = match UnsuffixedPowerOfTwoUsize::parse(args) {
        Ok(a) => a,
        Err(d) => {
            return Err(d);
        },
    };
    if args.len() > 0 {
        let s = args[0].span;
        return Err(Diag::new(s, DiagKind::UnexpectedToken));
    }
    Ok(a)
}

/// A generated group token with an empty parenthesized body.
pub open spec fn empty_paren(t: Token) -> bool {
    &&& t.span == GENERATED_SPAN
    &&& t.kind matches TokenKind::Group { delim: Delim::Paren, body } && body@.len() == 0
}

/// A generated `[u8; LEN]` type token whose length literal is `lit`.
pub open spec fn ty_token_ok(t: Token, lit: Token) -> bool {
    &&& t.span == GENERATED_SPAN
    &&& t.kind matches TokenKind::Group { delim: Delim::Bracket, body } && body@.len() == 3
        && gen_word(body@[0], "u8"@) && gen_punct(body@[1], ';') && body@[2] == lit
}

/// The number of top-level tokens a field renders to.
pub open spec fn field_token_count(f: Field) -> int {
    match f {
        Field::Unnamed { .. } => 2,
        Field::Named { .. } => 1,
    }
}

/// The tokens a field renders to: the field is rebuilt from its parts, so
/// attributes and visibility reappear as written, the array type is
/// regenerated around the length literal as written, and the unnamed shape
/// carries its closing `;`.
pub open spec fn field_tokens_ok(f: Field, s: Seq<Token>) -> bool {
    match f {
        Field::Unnamed { attrs, vis, ty } => {
            &&& s.len() == 2
            &&& s[0].span == GENERATED_SPAN
            &&& (s[0].kind matches TokenKind::Group { delim: Delim::Paren, body } && {
                let a = attrs_tokens(attrs@);
                let v = vis.tokens();
                &&& body@.len() == a.len() + v.len() + 1
                &&& body@.take((a.len() + v.len()) as int) == a + v
                &&& ty_token_ok(body@.last(), ty.len.lit)
            })
            &&& gen_punct(s[1], ';')
        },
        Field::Named { attrs, vis, ident, ty } => {
            &&& s.len() == 1
            &&& s[0].span == GENERATED_SPAN
            &&& (s[0].kind matches TokenKind::Group { delim: Delim::Brace, body } && {
                let a = attrs_tokens(attrs@);
                let v = vis.tokens();
                &&& body@.len() == a.len() + v.len() + 3
                &&& body@.take((a.len() + v.len()) as int) == a + v
                &&& body@[(a.len() + v.len()) as int] == ident
                &&& gen_punct(body@[(a.len() + v.len() + 1) as int], ':')
                &&& ty_token_ok(body@.last(), ty.len.lit)
            })
        },
    }
}

/// The tokens a whole declaration renders to: attributes and visibility
/// as written, a regenerated `struct` keyword, the declared name, then the
/// field.
pub open spec fn item_tokens_ok(item: BufferItem, s: Seq<Token>) -> bool {
    let a = attrs_tokens(item.attrs@);
    let v = item.vis.tokens();
    let k = a.len() + v.len();
    &&& s.len() == k + 2 + field_token_count(item.field)
    &&& s.take(k as int) == a + v
    &&& gen_word(s[k as int], "struct"@)
    &&& s[k as int + 1] == item.ident
    &&& field_tokens_ok(item.field, s.skip(k as int + 2))
}

/// The forced-alignment directive `#[repr(align(ALIGN))]` with the
/// alignment literal as written inside.
pub open spec fn align_directive_ok(s: Seq<Token>, lit: Token) -> bool {
    &&& s.len() == 2
    &&& gen_punct(s[0], '#')
    &&& s[1].span == GENERATED_SPAN
    &&& (s[1].kind matches TokenKind::Group { delim: Delim::Bracket, body } && body@.len() == 2
        && gen_word(body@[0], "repr"@) && body@[1].span == GENERATED_SPAN && (
    body@[1].kind matches TokenKind::Group { delim: Delim::Paren, body: b2 } && b2@.len() == 2
        && gen_word(b2@[0], "align"@) && b2@[1].span == GENERATED_SPAN && (
    b2@[1].kind matches TokenKind::Group { delim: Delim::Paren, body: b3 } && b3@ == seq![lit])))
}

/// The generated array-fill argument `[0; LEN]` (when `zero`) or
/// `[WORD; LEN]`, with the length literal as written.
pub open spec fn fill_arg_ok(t: Token, zero: bool, word: Seq<char>, lit: Token) -> bool {
    &&& t.span == GENERATED_SPAN
    &&& (t.kind matches TokenKind::Group { delim: Delim::Bracket, body } && body@.len() == 3 && (
    if zero {
        gen_zero(body@[0])
    } else {
        gen_word(body@[0], word)
    }) && gen_punct(body@[1], ';') && body@[2] == lit)
}

/// The brace-group body `Self::from_bytes([HEAD; LEN])`.
pub open spec fn from_bytes_fill_body_ok(b: Seq<Token>, zero: bool, word: Seq<char>, lit: Token) -> bool {
    &&& b.len() == 5
    &&& gen_word(b[0], "Self"@)
    &&& gen_punct(b[1], ':')
    &&& gen_punct(b[2], ':')
    &&& gen_word(b[3], "from_bytes"@)
    &&& b[4].span == GENERATED_SPAN
    &&& (b[4].kind matches TokenKind::Group { delim: Delim::Paren, body } && body@.len() == 1
        && fill_arg_ok(body@[0], zero, word, lit))
}

/// The member `fn new() -> Self { Self::from_bytes([0; LEN]) }`.
pub open spec fn fn_new_ok(s: Seq<Token>, lit: Token) -> bool {
    &&& s.len() == 7
    &&& gen_word(s[0], "fn"@)
    &&& gen_word(s[1], "new"@)
    &&& empty_paren(s[2])
    &&& gen_punct(s[3], '-')
    &&& gen_punct(s[4], '>')
    &&& gen_word(s[5], "Self"@)
    &&& s[6].span == GENERATED_SPAN
    &&& (s[6].kind matches TokenKind::Group { delim: Delim::Brace, body }
        && from_bytes_fill_body_ok(body@, true, Seq::empty(), lit))
}

/// The member `fn splat(byte: u8) -> Self { Self::from_bytes([byte; LEN]) }`.
pub open spec fn fn_splat_ok(s: Seq<Token>, lit: Token) -> bool {
    &&& s.len() == 7
    &&& gen_word(s[0], "fn"@)
    &&& gen_word(s[1], "splat"@)
    &&& s[2].span == GENERATED_SPAN
    &&& (s[2].kind matches TokenKind::Group { delim: Delim::Paren, body } && body@.len() == 3
        && gen_word(body@[0], "byte"@) && gen_punct(body@[1], ':') && gen_word(body@[2], "u8"@))
    &&& gen_punct(s[3], '-')
    &&& gen_punct(s[4], '>')
    &&& gen_word(s[5], "Self"@)
    &&& s[6].span == GENERATED_SPAN
    &&& (s[6].kind matches TokenKind::Group { delim: Delim::Brace, body }
        && from_bytes_fill_body_ok(body@, false, "byte"@, lit))
}

/// The member `fn from_bytes(bytes: [u8; LEN]) -> Self { ... }`, whose body
/// constructs the declared type through whichever field shape it has:
/// `Self(bytes)` for the unnamed shape, `Self { NAME: bytes }` for the named.
pub open spec fn fn_from_bytes_ok(s: Seq<Token>, f: Field, lit: Token) -> bool {
    &&& s.len() == 7
    &&& gen_word(s[0], "fn"@)
    &&& gen_word(s[1], "from_bytes"@)
    &&& s[2].span == GENERATED_SPAN
    &&& (s[2].kind matches TokenKind::Group { delim: Delim::Paren, body } && body@.len() == 3
        && gen_word(body@[0], "bytes"@) && gen_punct(body@[1], ':') && ty_token_ok(body@[2], lit))
    &&& gen_punct(s[3], '-')
    &&& gen_punct(s[4], '>')
    &&& gen_word(s[5], "Self"@)
    &&& s[6].span == GENERATED_SPAN
    &&& (s[6].kind matches TokenKind::Group { delim: Delim::Brace, body } && (match f {
        Field::Unnamed { .. } => body@.len() == 2 && gen_word(body@[0], "Self"@)
            && body@[1].span == GENERATED_SPAN && (body@[1].kind matches TokenKind::Group {
            delim: Delim::Paren,
            body: b2,
        } && b2@.len() == 1 && gen_word(b2@[0], "bytes"@)),
        Field::Named { ident, .. } => body@.len() == 2 && gen_word(body@[0], "Self"@)
            && body@[1].span == GENERATED_SPAN && (body@[1].kind matches TokenKind::Group {
            delim: Delim::Brace,
            body: b2,
        } && b2@.len() == 3 && b2@[0] == ident && gen_punct(b2@[1], ':') && gen_word(
            b2@[2],
            "bytes"@,
        )),
    }))
}

/// The member `fn as_slice(&self) -> &[u8; LEN] { &self.FIELD }`, where the
/// field access matches the declared shape: `.0` or the field's name.
pub open spec fn fn_as_slice_ok(s: Seq<Token>, f: Field, lit: Token) -> bool {
    &&& s.len() == 8
    &&& gen_word(s[0], "fn"@)
    &&& gen_word(s[1], "as_slice"@)
    &&& s[2].span == GENERATED_SPAN
    &&& (s[2].kind matches TokenKind::Group { delim: Delim::Paren, body } && body@.len() == 2
        && gen_punct(body@[0], '&') && gen_word(body@[1], "self"@))
    &&& gen_punct(s[3], '-')
    &&& gen_punct(s[4], '>')
    &&& gen_punct(s[5], '&')
    &&& ty_token_ok(s[6], lit)
    &&& s[7].span == GENERATED_SPAN
    &&& (s[7].kind matches TokenKind::Group { delim: Delim::Brace, body } && body@.len() == 4
        && gen_punct(body@[0], '&') && gen_word(body@[1], "self"@) && gen_punct(body@[2], '.')
        && (match f {
        Field::Unnamed { .. } => gen_zero(body@[3]),
        Field::Named { ident, .. } => body@[3] == ident,
    }))
}

/// The member `fn as_mut_slice(&mut self) -> &mut [u8; LEN] { &mut self.FIELD }`,
/// the exclusive counterpart of `as_slice`, with the same field access.
pub open spec fn fn_as_mut_slice_ok(s: Seq<Token>, f: Field, lit: Token) -> bool {
    &&& s.len() == 9
    &&& gen_word(s[0], "fn"@)
    &&& gen_word(s[1], "as_mut_slice"@)
    &&& s[2].span == GENERATED_SPAN
    &&& (s[2].kind matches TokenKind::Group { delim: Delim::Paren, body } && body@.len() == 3
        && gen_punct(body@[0], '&') && gen_word(body@[1], "mut"@) && gen_word(body@[2], "self"@))
    &&& gen_punct(s[3], '-')
    &&& gen_punct(s[4], '>')
    &&& gen_punct(s[5], '&')
    &&& gen_word(s[6], "mut"@)
    &&& ty_token_ok(s[7], lit)
    &&& s[8].span == GENERATED_SPAN
    &&& (s[8].kind matches TokenKind::Group { delim: Delim::Brace, body } && body@.len() == 5
        && gen_punct(body@[0], '&') && gen_word(body@[1], "mut"@) && gen_word(body@[2], "self"@)
        && gen_punct(body@[3], '.') && (match f {
        Field::Unnamed { .. } => gen_zero(body@[4]),
        Field::Named { ident, .. } => body@[4] == ident,
    }))
}

/// The implementation header
/// `impl ::aligned_buffer::buffer::AlignedBuffer<LEN, ALIGN> for NAME`,
/// instantiated with the length and alignment literals as written and the
/// declared name.
pub open spec fn impl_header_ok(s: Seq<Token>, len_lit: Token, align_lit: Token, ident: Token) -> bool {
    &&& s.len() == 17
    &&& gen_word(s[0], "impl"@)
    &&& gen_punct(s[1], ':')
    &&& gen_punct(s[2], ':')
    &&& gen_word(s[3], "aligned_buffer"@)
    &&& gen_punct(s[4], ':')
    &&& gen_punct(s[5], ':')
    &&& gen_word(s[6], "buffer"@)
    &&& gen_punct(s[7], ':')
    &&& gen_punct(s[8], ':')
    &&& gen_word(s[9], "AlignedBuffer"@)
    &&& gen_punct(s[10], '<')
    &&& s[11] == len_lit
    &&& gen_punct(s[12], ',')
    &&& s[13] == align_lit
    &&& gen_punct(s[14], '>')
    &&& gen_word(s[15], "for"@)
    &&& s[16] == ident
}

/// The whole emitted stream: the alignment directive, the declaration
/// re-emitted from its parts, and the contract implementation whose brace
/// body holds the four members in order.
pub open spec fn emitted_ok(item: BufferItem, align: UnsuffixedPowerOfTwoUsize, s: Seq<Token>) -> bool {
    let lit = item.field.ty_of().len.lit;
    let decl_len = attrs_tokens(item.attrs@).len() + item.vis.tokens().len() + 2
        + field_token_count(item.field);
    &&& s.len() == 2 + decl_len + 18
    &&& align_directive_ok(s.take(2), align.inner.lit)
    &&& item_tokens_ok(item, s.subrange(2, 2 + decl_len))
    &&& impl_header_ok(s.subrange(2 + decl_len, 2 + decl_len + 17), lit, align.inner.lit, item.ident)
    &&& s.last().span == GENERATED_SPAN
    &&& (s.last().kind matches TokenKind::Group { delim: Delim::Brace, body } && body@.len() == 38
        && fn_new_ok(body@.take(7), lit) && fn_splat_ok(body@.subrange(7, 14), lit)
        && fn_from_bytes_ok(body@.subrange(14, 21), item.field, lit) && fn_as_slice_ok(
        body@.subrange(21, 29),
        item.field,
        lit,
    ) && fn_as_mut_slice_ok(body@.subrange(29, 38), item.field, lit))
}

/// Appends the verbatim tokens of a list of attributes.
fn append_attrs(out: &mut Vec<Token>, attrs: Vec<Attr>)
    ensures
        final(out)@ == old(out)@ + attrs_tokens(attrs@),
{
    let ghost all = attrs@;
    let mut attrs = attrs;
    proof {
        assert(attrs@ =~= all.skip(0));
        assert(out@ =~= old(out)@ + attrs_tokens(all.take(0)));
    }
    while attrs.len() > 0
        invariant
            attrs@.len() <= all.len(),
            attrs@ == all.skip((all.len() - attrs@.len()) as int),
            out@ == old(out)@ + attrs_tokens(all.take((all.len() - attrs@.len()) as int)),
        decreases attrs@.len(),
    {
        let ghost k = all.len() - attrs@.len();
        let a = attrs.remove(0);
        proof {
            assert(a == all[k as int]);
            assert(attrs@ =~= all.skip((k + 1) as int));
        }
        out.push(a.pound);
        out.push(a.group);
        proof {
            assert(all.take((k + 1) as int).drop_last() =~= all.take(k as int));
            assert(all.take((k + 1) as int).last() == all[k as int]);
            assert(out@ =~= old(out)@ + attrs_tokens(all.take((k + 1) as int)));
        }
    }
    proof {
        assert(all.take(all.len() as int) =~= all);
    }
}

/// Appends the verbatim tokens of a visibility.
fn append_vis(out: &mut Vec<Token>, vis: Vis)
    ensures
        final(out)@ == old(out)@ + vis.tokens(),
{
    match vis {
        Vis::Inherited => {
            proof {
                assert(out@ =~= old(out)@ + vis.tokens());
            }
        },
        Vis::Public { tok } => {
            out.push(tok);
            proof {
                assert(out@ =~= old(out)@ + vis.tokens());
            }
        },
        Vis::Scoped { tok, scope } => {
            out.push(tok);
            out.push(scope);
            proof {
                assert(out@ =~= old(out)@ + vis.tokens());
            }
        },
    }
}

/// Builds the generated `[u8; LEN]` type token around the length literal.
fn ty_token(len_lit: Token) -> (t: Token)
    ensures
        ty_token_ok(t, len_lit),
{
    let mut b: Vec<Token> = Vec::new();
    b.push(Token::word("u8"));
    b.push(Token::punct(';'));
    b.push(len_lit);
    Token::group(Delim::Bracket, b)
}

impl Field {
    /// Renders the field back to tokens, rebuilt from its parts as the
    /// emitted declaration carries it.
    pub fn to_tokens(self, out: &mut Vec<Token>)
        ensures
            final(out)@.len() == old(out)@.len() + field_token_count(self),
            final(out)@.take(old(out)@.len() as int) == old(out)@,
            field_tokens_ok(self, final(out)@.skip(old(out)@.len() as int)),
    {
        match self {
            Field::Unnamed { attrs, vis, ty } => {
                let mut b: Vec<Token> = Vec::new();
                append_attrs(&mut b, attrs);
                append_vis(&mut b, vis);
                b.push(ty_token(ty.len.lit));
                let ghost bs = b@;
                let g = Token::group(Delim::Paren, b);
                out.push(g);
                out.push(Token::punct(';'));
                proof {
                    let a = attrs_tokens(self->Unnamed_attrs@);
                    let v = self->Unnamed_vis.tokens();
                    assert(bs.take((a.len() + v.len()) as int) =~= a + v);
                    assert(out@.take(old(out)@.len() as int) =~= old(out)@);
                    assert(out@.skip(old(out)@.len() as int) =~= seq![g, out@.last()]);
                }
            },
            Field::Named { attrs, vis, ident, ty } => {
                let mut b: Vec<Token> = Vec::new();
                append_attrs(&mut b, attrs);
                append_vis(&mut b, vis);
                b.push(ident);
                b.push(Token::punct(':'));
                b.push(ty_token(ty.len.lit));
                let ghost bs = b@;
                let g = Token::group(Delim::Brace, b);
                out.push(g);
                proof {
                    let a = attrs_tokens(self->Named_attrs@);
                    let v = self->Named_vis.tokens();
                    assert(bs.take((a.len() + v.len()) as int) =~= a + v);
                    assert(out@.take(old(out)@.len() as int) =~= old(out)@);
                    assert(out@.skip(old(out)@.len() as int) =~= seq![g]);
                }
            },
        }
    }
}

impl BufferItem {
    /// Renders the declaration back to tokens: attributes and visibility
    /// verbatim, a regenerated `struct` keyword, the name, and the field.
    pub fn to_tokens(self, out: &mut Vec<Token>)
        ensures
            final(out)@.len() == old(out)@.len() + attrs_tokens(self.attrs@).len()
                + self.vis.tokens().len() + 2 + field_token_count(self.field),
            final(out)@.take(old(out)@.len() as int) == old(out)@,
            item_tokens_ok(self, final(out)@.skip(old(out)@.len() as int)),
    {
        let BufferItem { attrs, vis, ident, field } = self;
        append_attrs(out, attrs);
        append_vis(out, vis);
        let w = Token::word("struct");
        out.push(w);
        out.push(ident);
        let ghost mid = out@;
        field.to_tokens(out);
        proof {
            let a = attrs_tokens(self.attrs@);
            let v = self.vis.tokens();
            let k = a.len() + v.len();
            let n0 = old(out)@.len() as int;
            assert(mid =~= old(out)@ + a + v + seq![w, self.ident]);
            assert(out@ =~= mid + out@.skip(mid.len() as int));
            let seg = out@.skip(n0);
            assert(seg.take(k as int) =~= a + v);
            assert(seg[k as int] == w);
            assert(seg[k as int + 1] == self.ident);
            assert(seg.skip(k as int + 2) =~= out@.skip(mid.len() as int));
            assert(field_tokens_ok(self.field, out@.skip(mid.len() as int)));
            assert(out@.take(n0) =~= old(out)@);
        }
    }
}

/// Builds the body `Self::from_bytes([HEAD; LEN])`.
fn gen_from_bytes_fill(zero: bool, len_lit: Token) -> (r: Vec<Token>)
    ensures
        zero ==> from_bytes_fill_body_ok(r@, true, Seq::<char>::empty(), len_lit),
        !zero ==> from_bytes_fill_body_ok(r@, false, "byte"@, len_lit),
{
    let mut fill: Vec<Token> = Vec::new();
    if zero {
        fill.push(Token::int_lit("0"));
    } else {
        fill.push(Token::word("byte"));
    }
    fill.push(Token::punct(';'));
    fill.push(len_lit);
    let arg = Token::group(Delim::Bracket, fill);
    let mut pbody: Vec<Token> = Vec::new();
    pbody.push(arg);
    let parg = Token::group(Delim::Paren, pbody);
    let mut r: Vec<Token> = Vec::new();
    r.push(Token::word("Self"));
    r.push(Token::punct(':'));
    r.push(Token::punct(':'));
    r.push(Token::word("from_bytes"));
    r.push(parg);
    r
}

/// Builds the member `fn new() -> Self { Self::from_bytes([0; LEN]) }`.
fn gen_fn_new(len_lit: Token) -> (r: Vec<Token>)
    ensures
        r@.len() == 7,
        fn_new_ok(r@, len_lit),
{
    let body = gen_from_bytes_fill(true, len_lit);
    let braced = Token::group(Delim::Brace, body);
    let mut r: Vec<Token> = Vec::new();
    r.push(Token::word("fn"));
    r.push(Token::word("new"));
    r.push(Token::group(Delim::Paren, Vec::new()));
    r.push(Token::punct('-'));
    r.push(Token::punct('>'));
    r.push(Token::word("Self"));
    r.push(braced);
    r
}

/// Builds the member `fn splat(byte: u8) -> Self { ... }`.
fn gen_fn_splat(len_lit: Token) -> (r: Vec<Token>)
    ensures
        r@.len() == 7,
        fn_splat_ok(r@, len_lit),
{
    let body = gen_from_bytes_fill(false, len_lit);
    let braced = Token::group(Delim::Brace, body);
    let mut params: Vec<Token> = Vec::new();
    params.push(Token::word("byte"));
    params.push(Token::punct(':'));
    params.push(Token::word("u8"));
    let mut r: Vec<Token> = Vec::new();
    r.push(Token::word("fn"));
    r.push(Token::word("splat"));
    r.push(Token::group(Delim::Paren, params));
    r.push(Token::punct('-'));
    r.push(Token::punct('>'));
    r.push(Token::word("Self"));
    r.push(braced);
    r
}

/// Builds the member `fn from_bytes(bytes: [u8; LEN]) -> Self { ... }`,
/// constructing through the declared field shape.
fn gen_fn_from_bytes(f: &Field, len_lit: Token) -> (r: Vec<Token>)
    requires
        f is Named ==> !(f->Named_ident.kind matches TokenKind::Group { .. }),
    ensures
        r@.len() == 7,
        fn_from_bytes_ok(r@, *f, len_lit),
{
    let mut params: Vec<Token> = Vec::new();
    params.push(Token::word("bytes"));
    params.push(Token::punct(':'));
    params.push(ty_token(len_lit));
    let mut body: Vec<Token> = Vec::new();
    body.push(Token::word("Self"));
    match f {
        Field::Unnamed { .. } => {
            let mut inner: Vec<Token> = Vec::new();
            inner.push(Token::word("bytes"));
            body.push(Token::group(Delim::Paren, inner));
        },
        Field::Named { ident, .. } => {
            let mut inner: Vec<Token> = Vec::new();
            inner.push(ident.clone_flat());
            inner.push(Token::punct(':'));
            inner.push(Token::word("bytes"));
            body.push(Token::group(Delim::Brace, inner));
        },
    }
    let braced = Token::group(Delim::Brace, body);
    let mut r: Vec<Token> = Vec::new();
    r.push(Token::word("fn"));
    r.push(Token::word("from_bytes"));
    r.push(Token::group(Delim::Paren, params));
    r.push(Token::punct('-'));
    r.push(Token::punct('>'));
    r.push(Token::word("Self"));
    r.push(braced);
    r
}

/// Builds the member `fn as_slice(&self) -> &[u8; LEN] { &self.FIELD }`.
fn gen_fn_as_slice(f: &Field, len_lit: Token) -> (r: Vec<Token>)
    requires
        f is Named ==> !(f->Named_ident.kind matches TokenKind::Group { .. }),
    ensures
        r@.len() == 8,
        fn_as_slice_ok(r@, *f, len_lit),
{
    let mut params: Vec<Token> = Vec::new();
    params.push(Token::punct('&'));
    params.push(Token::word("self"));
    let mut body: Vec<Token> = Vec::new();
    body.push(Token::punct('&'));
    body.push(Token::word("self"));
    body.push(Token::punct('.'));
    match f {
        Field::Unnamed { .. } => {
            body.push(Token::int_lit("0"));
        },
        Field::Named { ident, .. } => {
            body.push(ident.clone_flat());
        },
    }
    let braced = Token::group(Delim::Brace, body);
    let mut r: Vec<Token> = Vec::new();
    r.push(Token::word("fn"));
    r.push(Token::word("as_slice"));
    r.push(Token::group(Delim::Paren, params));
    r.push(Token::punct('-'));
    r.push(Token::punct('>'));
    r.push(Token::punct('&'));
    r.push(ty_token(len_lit));
    r.push(braced);
    r
}

/// Builds the member `fn as_mut_slice(&mut self) -> &mut [u8; LEN] { ... }`.
fn gen_fn_as_mut_slice(f: &Field, len_lit: Token) -> (r: Vec<Token>)
    requires
        f is Named ==> !(f->Named_ident.kind matches TokenKind::Group { .. }),
    ensures
        r@.len() == 9,
        fn_as_mut_slice_ok(r@, *f, len_lit),
{
    let mut params: Vec<Token> = Vec::new();
    params.push(Token::punct('&'));
    params.push(Token::word("mut"));
    params.push(Token::word("self"));
    let mut body: Vec<Token> = Vec::new();
    body.push(Token::punct('&'));
    body.push(Token::word("mut"));
    body.push(Token::word("self"));
    body.push(Token::punct('.'));
    match f {
        Field::Unnamed { .. } => {
            body.push(Token::int_lit("0"));
        },
        Field::Named { ident, .. } => {
            body.push(ident.clone_flat());
        },
    }
    let braced = Token::group(Delim::Brace, body);
    let mut r: Vec<Token> = Vec::new();
    r.push(Token::word("fn"));
    r.push(Token::word("as_mut_slice"));
    r.push(Token::group(Delim::Paren, params));
    r.push(Token::punct('-'));
    r.push(Token::punct('>'));
    r.push(Token::punct('&'));
    r.push(Token::word("mut"));
    r.push(ty_token(len_lit));
    r.push(braced);
    r
}

/// The length literal of the declaration's storage field.
fn field_len_lit<'a>(f: &'a Field) -> (r: &'a UnsuffixedUsize)
    ensures
        *r == f.ty_of().len,
{
    match f {
        Field::Unnamed { ty, .. } => &ty.len,
        Field::Named { ty, .. } => &ty.len,
    }
}

/// Emits the validated declaration: the alignment directive, the
/// declaration itself, and its buffer-contract implementation.
pub fn emit_tokens(item: BufferItem, align: UnsuffixedPowerOfTwoUsize) -> (out: Vec<Token>)
    requires
        item.wf(),
        align.wf(),
    ensures
        emitted_ok(item, align, out@),
{
    let len_lit = field_len_lit(&item.field);
    let lit1 = len_lit.lit.clone_flat();
    let lit2 = len_lit.lit.clone_flat();
    let lit3 = len_lit.lit.clone_flat();
    let lit4 = len_lit.lit.clone_flat();
    let lit5 = len_lit.lit.clone_flat();
    let lit6 = len_lit.lit.clone_flat();
    let align_lit_impl = align.inner.lit.clone_flat();
    let ident_impl = item.ident.clone_flat();

    let m_new = gen_fn_new(lit2);
    let m_splat = gen_fn_splat(lit3);
    let m_fb = gen_fn_from_bytes(&item.field, lit4);
    let m_as = gen_fn_as_slice(&item.field, lit5);
    let m_am = gen_fn_as_mut_slice(&item.field, lit6);

    let mut out: Vec<Token> = Vec::new();
    let mut b3: Vec<Token> = Vec::new();
    b3.push(align.inner.lit);
    let inner2 = Token::group(Delim::Paren, b3);
    let mut b2: Vec<Token> = Vec::new();
    b2.push(Token::word("align"));
    b2.push(inner2);
    let g2 = Token::group(Delim::Paren, b2);
    let mut b1: Vec<Token> = Vec::new();
    b1.push(Token::word("repr"));
    b1.push(g2);
    let g1 = Token::group(Delim::Bracket, b1);
    out.push(Token::punct('#'));
    out.push(g1);
    let ghost dir = out@;
    proof {
        assert(align_directive_ok(dir, align.inner.lit));
    }

    item.to_tokens(&mut out);
    let ghost with_decl = out@;

    out.push(Token::word("impl"));
    out.push(Token::punct(':'));
    out.push(Token::punct(':'));
    out.push(Token::word("aligned_buffer"));
    out.push(Token::punct(':'));
    out.push(Token::punct(':'));
    out.push(Token::word("buffer"));
    out.push(Token::punct(':'));
    out.push(Token::punct(':'));
    out.push(Token::word("AlignedBuffer"));
    out.push(Token::punct('<'));
    out.push(lit1);
    out.push(Token::punct(','));
    out.push(align_lit_impl);
    out.push(Token::punct('>'));
    out.push(Token::word("for"));
    out.push(ident_impl);

    let mut members = m_new;
    let mut m2 = m_splat;
    members.append(&mut m2);
    let mut m3 = m_fb;
    members.append(&mut m3);
    let mut m4 = m_as;
    members.append(&mut m4);
    let mut m5 = m_am;
    members.append(&mut m5);
    proof {
        assert(members@.take(7) =~= members@.subrange(0, 7));
    }
    out.push(Token::group(Delim::Brace, members));

    proof {
        let lit = item.field.ty_of().len.lit;
        let n = with_decl.len() as int;
        let decl_len = attrs_tokens(item.attrs@).len() + item.vis.tokens().len() + 2
            + field_token_count(item.field);
        assert(n == 2 + decl_len);
        assert(out@.take(2) =~= dir.take(2));
        assert(dir.take(2) =~= dir);
        assert(out@.subrange(2, n) =~= with_decl.skip(2));
        assert(impl_header_ok(out@.subrange(n, n + 17), lit, align.inner.lit, item.ident));
        assert(out@.last().kind matches TokenKind::Group { delim: Delim::Brace, body }
            && body@.len() == 38);
        assert(members@.take(7) =~= m_new@);
        assert(members@.subrange(7, 14) =~= m_splat@);
        assert(members@.subrange(14, 21) =~= m_fb@);
        assert(members@.subrange(21, 29) =~= m_as@);
        assert(members@.subrange(29, 38) =~= m_am@);
    }
    out
}

/// What a successful generation promises: a well-formed declaration read
/// from the item stream and a well-formed power-of-two alignment literal
/// making up the whole argument stream passed the layout rules, and the
/// output is exactly what emission produces for them.
pub open spec fn generation_accepted(args: Seq<Token>, item: Seq<Token>, out: Seq<Token>) -> bool {
    exists|it: BufferItem, al: UnsuffixedPowerOfTwoUsize|
        #![trigger emitted_ok(it, al, out)]
        {
            &&& emitted_ok(it, al, out)
            &&& it.wf()
            &&& al.wf()
            &&& args.len() == 1 && al.inner.lit == args[0]
            &&& crate::parse::item_parsed_from(it, item)
            &&& layout_ok(it.field.ty_of().len.value as nat, al.inner.value as nat)
        }
}

/// When generation is owed success: the argument stream is a valid
/// alignment, some well-formed declaration makes up the item stream, and
/// the declared length and alignment obey the layout rules.
pub open spec fn accepts(args: Seq<Token>, item: Seq<Token>) -> bool {
    &&& align_arg_ok(args)
    &&& exists|it: BufferItem|
        it.wf() && #[trigger] crate::parse::item_parsed_from(it, item) && layout_ok(
            it.field.ty_of().len.value as nat,
            crate::parse::digits_value(crate::parse::token_digits(args[0])),
        )
}

/// The generator's core: reads the alignment argument and the declaration,
/// validates the declared layout, and either emits the aligned type with its
/// contract implementation or rejects the declaration at the offending
/// token. It succeeds exactly when the argument stream is a valid alignment,
/// a well-formed declaration makes up the item stream, and the declared pair
/// obeys the layout rules; the alignment argument is judged before the
/// declaration, and a zero or non-multiple length is reported at the length
/// literal, in that order.
pub fn aligned_buffer_inner(args: Vec<Token>, item: Vec<Token>) -> (r: Result<Vec<Token>, Diag>)
    ensures
        r is Ok <==> accepts(args@, item@),
        r matches Ok(out) ==> generation_accepted(args@, item@, out@),
        forall|it: BufferItem|
            it.wf() && #[trigger] crate::parse::item_parsed_from(it, item@) && align_arg_ok(args@)
                && it.field.ty_of().len.value == 0 ==> r == Err::<Vec<Token>, Diag>(
                Diag { span: it.field.ty_of().len.lit.span, kind: DiagKind::ZeroLength },
            ),
        forall|it: BufferItem|
            it.wf() && #[trigger] crate::parse::item_parsed_from(it, item@) && align_arg_ok(args@)
                && it.field.ty_of().len.value != 0 && it.field.ty_of().len.value as nat
                % crate::parse::digits_value(crate::parse::token_digits(args@[0])) != 0 ==> r
                == Err::<Vec<Token>, Diag>(
                Diag {
                    span: it.field.ty_of().len.lit.span,
                    kind: DiagKind::NotMultiple {
                        len: it.field.ty_of().len.value,
                        align: crate::parse::digits_value(
                            crate::parse::token_digits(args@[0]),
                        ) as usize,
                    },
                },
            ),
        args@.len() == 0 ==> r == Err::<Vec<Token>, Diag>(
            Diag { span: GENERATED_SPAN, kind: DiagKind::UnexpectedEnd },
        ),
        args@.len() > 0 && crate::parse::is_plain_int(args@[0]) && crate::parse::digits_value(
            crate::parse::token_digits(args@[0]),
        ) <= usize::MAX && !is_power_of_two(
            crate::parse::digits_value(crate::parse::token_digits(args@[0])),
        ) ==> r == Err::<Vec<Token>, Diag>(
            Diag {
                span: args@[0].span,
                kind: DiagKind::NotPowerOfTwo {
                    found: crate::parse::digits_value(
                        crate::parse::token_digits(args@[0]),
                    ) as usize,
                },
            },
        ),
{
    let ghost a0 = args@;
    let ghost i0 = item@;
    let mut args = args;
    let align = match parse_align_arg(&mut args) {
        Ok(a) => a,
        Err(d) => {
            return Err(d);
        },
    };
    proof {
        assert(a0.len() == 1 && align.inner.lit == a0[0]);
        assert(align.inner.value as nat == crate::parse::digits_value(
            crate::parse::token_digits(a0[0]),
        ));
    }
    let mut item_toks = item;
    let parsed = match BufferItem::parse(&mut item_toks) {
        Ok(i) => i,
        Err(d) => {
            return Err(d);
        },
    };
    let ghost g_item = parsed;
    proof {
        // every declaration written in the item stream carries the same
        // length literal as the one just parsed
        assert forall|it: BufferItem|
            it.wf() && #[trigger] crate::parse::item_parsed_from(it, i0) implies it.field.ty_of().len.lit
            == g_item.field.ty_of().len.lit by {
            crate::parse::lemma_item_witness_lit(it, g_item, i0);
        }
    }
    let len = field_len_lit(&parsed.field);
    match check_declared_layout(len, &align) {
        Ok(_) => {},
        Err(d) => {
            return Err(d);
        },
    }
    let ghost g_align = align;
    let out = emit_tokens(parsed, align);
    proof {
        assert(emitted_ok(g_item, g_align, out@));
        assert(g_item.wf());
        assert(g_align.wf());
        assert(layout_ok(g_item.field.ty_of().len.value as nat, g_align.inner.value as nat));
        assert(generation_accepted(a0, i0, out@));
        assert(accepts(a0, i0));
    }
    Ok(out)
}

} // verus!
