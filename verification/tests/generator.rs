use aligned_buffer::diag::{Diag, DiagKind};
use aligned_buffer::generate::aligned_buffer_inner;
use aligned_buffer::parse::UnsuffixedUsize;
use aligned_buffer::token::{Delim, Token, TokenKind};

fn word(text: &str, span: usize) -> Token {
    Token { span, kind: TokenKind::Word(text.to_string()) }
}

fn lit(digits: &str, span: usize) -> Token {
    Token { span, kind: TokenKind::IntLit { digits: digits.to_string(), suffix: String::new() } }
}

fn suffixed_lit(digits: &str, suffix: &str, span: usize) -> Token {
    Token {
        span,
        kind: TokenKind::IntLit { digits: digits.to_string(), suffix: suffix.to_string() },
    }
}

fn punct(c: char, span: usize) -> Token {
    Token { span, kind: TokenKind::Punct(c) }
}

fn group(delim: Delim, body: Vec<Token>, span: usize) -> Token {
    Token { span, kind: TokenKind::Group { delim, body } }
}

/// `struct NAME ( [u8; LEN] ) ;` with distinct span identifiers.
fn tuple_decl(name: &str, len_digits: &str, len_span: usize) -> Vec<Token> {
    vec![
        word("struct", 10),
        word(name, 11),
        group(
            Delim::Paren,
            vec![group(Delim::Bracket, vec![word("u8", 13), punct(';', 14), lit(len_digits, len_span)], 12)],
            15,
        ),
        punct(';', 16),
    ]
}

fn first_words(toks: &[Token]) -> Vec<String> {
    let mut out = Vec::new();
    for t in toks {
        if let TokenKind::Word(w) = &t.kind {
            out.push(w.clone());
        }
    }
    out
}

#[test]
fn valid_declaration_is_accepted() {
    let args = vec![lit("16", 1)];
    let out = aligned_buffer_inner(args, tuple_decl("AlignedBuffer32", "32", 20)).unwrap();
    // The emission starts with the forced-alignment directive.
    assert_eq!(out[0].kind, TokenKind::Punct('#'));
    match &out[1].kind {
        TokenKind::Group { delim: Delim::Bracket, body } => {
            assert_eq!(body[0].kind, TokenKind::Word("repr".to_string()));
            match &body[1].kind {
                TokenKind::Group { delim: Delim::Paren, body } => {
                    assert_eq!(body[0].kind, TokenKind::Word("align".to_string()));
                    match &body[1].kind {
                        TokenKind::Group { delim: Delim::Paren, body } => {
                            assert_eq!(body[0], lit("16", 1));
                        },
                        other => panic!("expected a group, found {other:?}"),
                    }
                },
                other => panic!("expected a group, found {other:?}"),
            }
        },
        other => panic!("expected a group, found {other:?}"),
    }
    // The declaration and the implementation follow.
    let words = first_words(&out);
    assert_eq!(
        words,
        vec!["struct", "AlignedBuffer32", "impl", "aligned_buffer", "buffer", "AlignedBuffer", "for", "AlignedBuffer32"],
    );
}

#[test]
fn emitted_impl_has_all_five_members() {
    let args = vec![lit("16", 1)];
    let out = aligned_buffer_inner(args, tuple_decl("B", "32", 20)).unwrap();
    let members = match &out.last().unwrap().kind {
        TokenKind::Group { delim: Delim::Brace, body } => first_words(body),
        other => panic!("expected a brace group, found {other:?}"),
    };
    let fn_names: Vec<&String> = members
        .iter()
        .zip(members.iter().skip(1))
        .filter(|(w, _)| w.as_str() == "fn")
        .map(|(_, name)| name)
        .collect();
    assert_eq!(fn_names, ["new", "splat", "from_bytes", "as_slice", "as_mut_slice"]);
}

#[test]
fn keyword_as_field_name_is_rejected() {
    let args = vec![lit("8", 1)];
    let item = vec![
        word("struct", 10),
        word("B", 11),
        group(
            Delim::Brace,
            vec![
                word("pub", 12),
                punct(':', 13),
                group(Delim::Bracket, vec![word("u8", 14), punct(';', 15), lit("8", 16)], 17),
                punct(',', 18),
            ],
            19,
        ),
    ];
    let err = aligned_buffer_inner(args, item).unwrap_err();
    assert_eq!(err.kind.message(), "expected identifier");
}

#[test]
fn named_field_declaration_is_accepted() {
    let args = vec![lit("8", 1)];
    let item = vec![
        word("pub", 9),
        word("struct", 10),
        word("Buf", 11),
        group(
            Delim::Brace,
            vec![
                word("data", 12),
                punct(':', 13),
                group(Delim::Bracket, vec![word("u8", 14), punct(';', 15), lit("8", 16)], 17),
                punct(',', 18),
            ],
            19,
        ),
    ];
    let out = aligned_buffer_inner(args, item).unwrap();
    let words = first_words(&out);
    assert!(words.contains(&"Buf".to_string()));
    assert!(words.contains(&"impl".to_string()));
}

#[test]
fn non_power_of_two_alignment_is_rejected() {
    let args = vec![lit("6", 7)];
    let err = aligned_buffer_inner(args, tuple_decl("B", "32", 20)).unwrap_err();
    assert_eq!(err.span, 7);
    assert_eq!(err.kind.message(), "expected a power of two, found `6`");
}

#[test]
fn zero_length_is_rejected() {
    let args = vec![lit("4", 1)];
    let err = aligned_buffer_inner(args, tuple_decl("B", "0", 20)).unwrap_err();
    assert_eq!(err.span, 20);
    assert_eq!(err.kind.message(), "buffer length must be greater than zero");
}

#[test]
fn length_not_multiple_of_alignment_is_rejected() {
    let args = vec![lit("4", 1)];
    let err = aligned_buffer_inner(args, tuple_decl("B", "10", 20)).unwrap_err();
    assert_eq!(err.span, 20);
    assert_eq!(err.kind.message(), "buffer length `10` is not a multiple of `4`");
}

#[test]
fn suffixed_alignment_literal_is_rejected() {
    let args = vec![suffixed_lit("16", "usize", 3)];
    let err = aligned_buffer_inner(args, tuple_decl("B", "32", 20)).unwrap_err();
    assert_eq!(err.span, 3);
    assert_eq!(err.kind.message(), "expected unsuffixed `usize`, found suffix `usize`");
}

#[test]
fn trailing_tokens_after_alignment_are_rejected() {
    let args = vec![lit("16", 1), word("extra_token", 2)];
    let err = aligned_buffer_inner(args, tuple_decl("B", "32", 20)).unwrap_err();
    assert_eq!(err.span, 2);
    assert_eq!(err.kind, DiagKind::UnexpectedToken);
}

#[test]
fn wrong_element_type_is_rejected() {
    let args = vec![lit("16", 1)];
    let item = vec![
        word("struct", 10),
        word("B", 11),
        group(
            Delim::Paren,
            vec![group(Delim::Bracket, vec![word("u16", 13), punct(';', 14), lit("32", 15)], 12)],
            16,
        ),
        punct(';', 17),
    ];
    let err = aligned_buffer_inner(args, item).unwrap_err();
    assert_eq!(err.span, 13);
    assert_eq!(err.kind.message(), "expected `u8`");
}

#[test]
fn missing_field_group_is_rejected() {
    let args = vec![lit("16", 1)];
    let item = vec![word("struct", 10), word("B", 11), punct(';', 12)];
    let err = aligned_buffer_inner(args, item).unwrap_err();
    assert_eq!(err.span, 12);
    assert_eq!(err.kind.message(), "expected parentheses or curly braces");
}

#[test]
fn missing_struct_keyword_is_rejected() {
    let args = vec![lit("16", 1)];
    let item = vec![word("enum", 10), word("B", 11)];
    let err = aligned_buffer_inner(args, item).unwrap_err();
    assert_eq!(err.span, 10);
    assert_eq!(err.kind.message(), "expected `struct`");
}

#[test]
fn empty_alignment_argument_is_rejected() {
    let err = aligned_buffer_inner(vec![], tuple_decl("B", "32", 20)).unwrap_err();
    assert_eq!(err.kind, DiagKind::UnexpectedEnd);
    assert_eq!(err.kind.message(), "unexpected end of input");
}

#[test]
fn word_as_alignment_is_rejected() {
    let args = vec![word("sixteen", 2)];
    let err = aligned_buffer_inner(args, tuple_decl("B", "32", 20)).unwrap_err();
    assert_eq!(err.span, 2);
    assert_eq!(err.kind.message(), "expected integer literal");
}

#[test]
fn missing_semicolon_after_tuple_field_is_rejected() {
    let args = vec![lit("16", 1)];
    let item = vec![
        word("struct", 10),
        word("B", 11),
        group(
            Delim::Paren,
            vec![group(Delim::Bracket, vec![word("u8", 13), punct(';', 14), lit("32", 15)], 12)],
            16,
        ),
    ];
    let err = aligned_buffer_inner(args, item).unwrap_err();
    assert_eq!(err.kind, DiagKind::UnexpectedEnd);
}

#[test]
fn missing_colon_in_named_field_is_rejected() {
    let args = vec![lit("8", 1)];
    let item = vec![
        word("struct", 10),
        word("B", 11),
        group(
            Delim::Brace,
            vec![
                word("data", 12),
                group(Delim::Bracket, vec![word("u8", 14), punct(';', 15), lit("8", 16)], 13),
                punct(',', 17),
            ],
            18,
        ),
    ];
    let err = aligned_buffer_inner(args, item).unwrap_err();
    assert_eq!(err.span, 13);
    assert_eq!(err.kind.message(), "expected `:`");
}

#[test]
fn missing_trailing_comma_in_named_field_is_rejected() {
    let args = vec![lit("8", 1)];
    let item = vec![
        word("struct", 10),
        word("B", 11),
        group(
            Delim::Brace,
            vec![
                word("data", 12),
                punct(':', 13),
                group(Delim::Bracket, vec![word("u8", 14), punct(';', 15), lit("8", 16)], 17),
            ],
            18,
        ),
    ];
    let err = aligned_buffer_inner(args, item).unwrap_err();
    assert_eq!(err.kind, DiagKind::UnexpectedEnd);
}

#[test]
fn unbracketed_field_type_is_rejected() {
    let args = vec![lit("16", 1)];
    let item = vec![
        word("struct", 10),
        word("B", 11),
        group(Delim::Paren, vec![word("u8", 12)], 13),
        punct(';', 14),
    ];
    let err = aligned_buffer_inner(args, item).unwrap_err();
    assert_eq!(err.span, 12);
    assert_eq!(err.kind.message(), "expected square brackets");
}

#[test]
fn non_identifier_element_type_is_rejected() {
    let args = vec![lit("16", 1)];
    let item = vec![
        word("struct", 10),
        word("B", 11),
        group(
            Delim::Paren,
            vec![group(Delim::Bracket, vec![lit("1", 13), punct(';', 14), lit("32", 15)], 12)],
            16,
        ),
        punct(';', 17),
    ];
    let err = aligned_buffer_inner(args, item).unwrap_err();
    assert_eq!(err.span, 13);
    assert_eq!(err.kind.message(), "expected identifier");
}

#[test]
fn attributes_and_visibility_are_kept() {
    let args = vec![lit("16", 1)];
    let item = vec![
        punct('#', 30),
        group(Delim::Bracket, vec![word("derive", 31)], 32),
        word("pub", 33),
        word("struct", 10),
        word("B", 11),
        group(
            Delim::Paren,
            vec![group(Delim::Bracket, vec![word("u8", 13), punct(';', 14), lit("32", 15)], 12)],
            16,
        ),
        punct(';', 17),
    ];
    let out = aligned_buffer_inner(args, item).unwrap();
    // After the two directive tokens the declaration reappears, with its
    // attribute and visibility as written.
    assert_eq!(out[2], punct('#', 30));
    assert_eq!(out[3], group(Delim::Bracket, vec![word("derive", 31)], 32));
    assert_eq!(out[4], word("pub", 33));
    assert_eq!(out[5].kind, TokenKind::Word("struct".to_string()));
}

#[test]
fn oversized_length_literal_is_rejected() {
    let mut toks = vec![lit("99999999999999999999999999999999999999", 4)];
    let err = UnsuffixedUsize::parse(&mut toks).unwrap_err();
    assert_eq!(err.span, 4);
    assert_eq!(err.kind.message(), "integer literal is too large");
}

#[test]
fn parsed_literal_keeps_its_value_and_token() {
    let mut toks = vec![lit("4096", 5)];
    let u = UnsuffixedUsize::parse(&mut toks).unwrap();
    assert_eq!(u.value, 4096);
    assert_eq!(u.lit, lit("4096", 5));
    assert!(toks.is_empty());
}

#[test]
fn diag_carries_both_values_in_multiple_message() {
    let d = Diag { span: 0, kind: DiagKind::NotMultiple { len: 1000, align: 256 } };
    assert_eq!(d.kind.message(), "buffer length `1000` is not a multiple of `256`");
}
