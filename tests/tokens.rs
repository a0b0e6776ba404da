use proc_macro0::{
    Delimiter, Group, Ident, LexError, LineColumn, Literal, NodeType, Punct, SourceMap, Spacing,
    Span, TokenStream, TokenTree,
};

fn ident(s: &str) -> TokenTree {
    TokenTree::Ident(Ident::new(s, Span::call_site()))
}

fn punct(c: char, spacing: Spacing) -> TokenTree {
    TokenTree::Punct(Punct::new(c, spacing))
}

#[test]
fn deep_nesting_drops_without_overflow() {
    let mut stream = TokenStream::new();
    for _ in 0..100_000 {
        let group = Group::new(Delimiter::Parenthesis, stream);
        stream = TokenStream::new();
        stream.push_token(TokenTree::Group(group));
    }
    assert!(!stream.is_empty());
    drop(stream);
}

#[test]
fn deep_nesting_clone_and_drop() {
    let mut stream = TokenStream::new();
    for _ in 0..1_000 {
        let group = Group::new(Delimiter::Bracket, stream);
        stream = TokenStream::from_tree(TokenTree::Group(group));
    }
    let copy = stream.clone();
    assert_eq!(copy.to_text(), stream.to_text());
    drop(copy);
    drop(stream);
}

#[test]
fn negative_literal_is_split() {
    let mut stream = TokenStream::new();
    let lit = Literal::i32_suffixed(-3);
    assert_eq!(lit.to_text(), "-3i32");
    stream.push_token(TokenTree::Literal(lit));
    let trees = stream.into_trees();
    assert_eq!(trees.len(), 2);
    match &trees[0] {
        TokenTree::Punct(p) => {
            assert_eq!(p.as_char(), '-');
            assert_eq!(p.spacing(), Spacing::Alone);
        }
        _ => panic!("expected a punctuation mark"),
    }
    match &trees[1] {
        TokenTree::Literal(l) => assert_eq!(l.to_text(), "3i32"),
        _ => panic!("expected a literal"),
    }
}

#[test]
fn negative_literal_keeps_span() {
    let mut lit = Literal::i64_unsuffixed(-12);
    let span = Span { lo: 3, hi: 6 };
    lit.set_span(span);
    let stream = TokenStream::from_tree(TokenTree::Literal(lit));
    let trees = stream.into_trees();
    match (&trees[0], &trees[1]) {
        (TokenTree::Punct(p), TokenTree::Literal(l)) => {
            assert_eq!(p.span(), span);
            assert_eq!(l.span(), span);
            assert_eq!(l.to_text(), "12");
        }
        _ => panic!("expected a minus and a literal"),
    }
}

#[test]
fn positive_literal_is_kept() {
    let stream = TokenStream::from_trees(vec![TokenTree::Literal(Literal::u8_suffixed(7))]);
    assert_eq!(stream.to_text(), "7u8");
    assert_eq!(stream.into_trees().len(), 1);
}

#[test]
fn extend_streams_does_not_split_again() {
    let raw = TokenStream::from_vec(vec![TokenTree::Literal(Literal::i8_unsuffixed(-1))]);
    let other = TokenStream::from_trees(vec![ident("x")]);
    let all = TokenStream::from_streams(vec![raw, other]);
    assert_eq!(all.to_text(), "-1 x");
    assert_eq!(all.into_trees().len(), 2);
}

#[test]
fn extend_trees_splits_each() {
    let mut stream = TokenStream::new();
    stream.extend_trees(vec![
        TokenTree::Literal(Literal::i16_suffixed(-5)),
        ident("y"),
    ]);
    assert_eq!(stream.to_text(), "- 5i16 y");
    let mut more = TokenStream::from_trees(vec![ident("z")]);
    more.extend_streams(vec![stream]);
    assert_eq!(more.into_trees().len(), 4);
}

#[test]
fn ident_validation() {
    assert!(Ident::try_new("42", Span::call_site()).is_none());
    assert!(Ident::try_new("", Span::call_site()).is_none());
    assert!(Ident::try_new("_x9", Span::call_site()).is_some());
    assert!(Ident::try_new_raw("self", Span::call_site()).is_none());
    assert!(Ident::try_new_raw("self2", Span::call_site()).is_some());
    assert!(Ident::try_new("self", Span::call_site()).is_some());
    assert!(Ident::try_new("a-b", Span::call_site()).is_none());
    assert!(Ident::try_new("9a", Span::call_site()).is_none());
    assert!(Ident::try_new("é", Span::call_site()).is_some());
    for word in ["_", "super", "self", "Self", "crate"] {
        assert!(!proc_macro0::validate_ident(word, true));
    }
}

#[test]
fn ident_equality() {
    let a = Ident::new("foo", Span::call_site());
    let b = Ident::new("foo", Span { lo: 1, hi: 4 });
    let r = Ident::new_raw("foo", Span::call_site());
    assert!(a == b);
    assert!(a != r);
    assert!(a.eq_str("foo"));
    assert!(!a.eq_str("r#foo"));
    assert!(r.eq_str("r#foo"));
    assert!(!r.eq_str("foo"));
    assert_eq!(r.to_text(), "r#foo");
}

#[test]
fn line_and_column() {
    let mut map = SourceMap::new();
    let span = map.add_file("text", "ab\ncd");
    assert_eq!(span, Span { lo: 1, hi: 6 });
    let d = Span { lo: span.lo + 4, hi: span.lo + 4 };
    assert_eq!(d.start(&map), LineColumn { line: 2, column: 1 });
    let first = Span { lo: span.lo, hi: span.lo };
    assert_eq!(first.start(&map), LineColumn { line: 1, column: 0 });
    let c = Span { lo: span.lo + 3, hi: span.lo + 3 };
    assert_eq!(c.start(&map), LineColumn { line: 2, column: 0 });
    assert_eq!(span.end(&map), LineColumn { line: 2, column: 2 });
    assert_eq!(span.source_file(&map).path(), "text");
    assert!(!span.source_file(&map).is_real());
}

#[test]
fn call_site_resolves_to_placeholder() {
    let map = SourceMap::new();
    let s = Span::call_site();
    assert_eq!(s.start(&map), LineColumn { line: 1, column: 0 });
    assert_eq!(s.source_file(&map).path(), "<unspecified>");
}

#[test]
fn registered_fragments_are_disjoint() {
    let mut map = SourceMap::new();
    let a = map.register("x y");
    let b = map.register("");
    let c = map.register("z");
    assert_eq!(a, Span { lo: 1, hi: 4 });
    assert_eq!(b, Span { lo: 5, hi: 5 });
    assert_eq!(c, Span { lo: 6, hi: 7 });
    assert_eq!(a.source_file(&map).path(), "<parsed string 1>");
    assert_eq!(c.source_file(&map).path(), "<parsed string 3>");
    assert_eq!(map.len(), 4);
    let cursor = proc_macro0::get_cursor(&mut map, "abc");
    assert_eq!(cursor.off, 8);
    assert_eq!(cursor.rest, "abc");
}

#[test]
fn join_same_and_different_files() {
    let mut map = SourceMap::new();
    let f = map.add_file("f", "hello world");
    let g = map.add_file("g", "other");
    let a = Span { lo: f.lo + 1, hi: f.lo + 3 };
    let b = Span { lo: f.lo + 6, hi: f.lo + 9 };
    assert_eq!(a.join(b, &map), Some(Span { lo: f.lo + 1, hi: f.lo + 9 }));
    assert_eq!(b.join(a, &map), Some(Span { lo: f.lo + 1, hi: f.lo + 9 }));
    let c = Span { lo: g.lo, hi: g.lo + 2 };
    assert_eq!(a.join(c, &map), None);
    assert_eq!(c.join(a, &map), None);
}

#[test]
fn display_spacing() {
    let alone = TokenStream::from_trees(vec![ident("a"), punct('+', Spacing::Alone), ident("b")]);
    assert_eq!(alone.to_text(), "a + b");
    let joint = TokenStream::from_trees(vec![punct('+', Spacing::Joint), punct('+', Spacing::Alone)]);
    assert_eq!(joint.to_text(), "++");
    let joined = TokenStream::from_trees(vec![ident("a"), punct('+', Spacing::Joint), ident("b")]);
    assert_eq!(joined.to_text(), "a +b");
    assert_eq!(TokenStream::new().to_text(), "");
}

#[test]
fn display_groups() {
    let inner = TokenStream::from_trees(vec![ident("x")]);
    let brace = Group::new(Delimiter::Brace, inner.clone());
    assert_eq!(brace.to_text(), "{ x }");
    assert_eq!(Group::new(Delimiter::Brace, TokenStream::new()).to_text(), "{ }");
    assert_eq!(Group::new(Delimiter::Parenthesis, TokenStream::new()).to_text(), "()");
    assert_eq!(Group::new(Delimiter::Bracket, inner.clone()).to_text(), "[x]");
    assert_eq!(Group::new(Delimiter::Invisible, inner).to_text(), "x");
    let stream = TokenStream::from_trees(vec![ident("f"), TokenTree::Group(brace)]);
    assert_eq!(stream.to_text(), "f { x }");
}

#[test]
fn group_spans() {
    let mut g = Group::new(Delimiter::Parenthesis, TokenStream::new());
    assert_eq!(g.span(), Span::call_site());
    g.set_span(Span { lo: 10, hi: 15 });
    assert_eq!(g.span_open(), Span { lo: 10, hi: 11 });
    assert_eq!(g.span_close(), Span { lo: 14, hi: 15 });
    assert_eq!(g.delimiter(), Delimiter::Parenthesis);
    assert!(g.stream().is_empty());
    g.set_span(Span { lo: 4, hi: 4 });
    assert_eq!(g.span_open(), Span { lo: 4, hi: 4 });
    assert_eq!(g.span_close(), Span { lo: 4, hi: 4 });
}

#[test]
fn span_selectors() {
    let a = Span { lo: 1, hi: 2 };
    let b = Span { lo: 5, hi: 9 };
    assert_eq!(a.resolved_at(b), a);
    assert_eq!(a.located_at(b), b);
    assert_eq!(Span::mixed_site(), Span::call_site());
    assert_eq!(Span::def_site(), Span { lo: 0, hi: 0 });
}

#[test]
fn byte_string_escaping() {
    assert_eq!(Literal::byte_string(&[0, 65, 127]).to_text(), "b\"\\0A\\x7F\"");
    assert_eq!(
        Literal::byte_string(b"\t\n\r\"\\ ~\x80").to_text(),
        "b\"\\t\\n\\r\\\"\\\\ ~\\x80\""
    );
    assert_eq!(Literal::byte_string(&[]).to_text(), "b\"\"");
}

#[test]
fn string_and_char_escaping() {
    assert_eq!(Literal::string("a'b\"c\n").to_text(), "\"a'b\\\"c\\n\"");
    assert_eq!(Literal::character('"').to_text(), "'\"'");
    assert_eq!(Literal::character('\'').to_text(), "'\\''");
    assert_eq!(Literal::character('x').to_text(), "'x'");
    assert_eq!(Literal::string("").to_text(), "\"\"");
}

#[test]
fn number_literals() {
    assert_eq!(Literal::u8_suffixed(7).to_text(), "7u8");
    assert_eq!(Literal::u128_suffixed(u128::MAX).to_text(), "340282366920938463463374607431768211455u128");
    assert_eq!(Literal::i128_unsuffixed(i128::MIN).to_text(), "-170141183460469231731687303715884105728");
    assert_eq!(Literal::usize_unsuffixed(0).to_text(), "0");
    assert_eq!(Literal::isize_suffixed(-40).to_text(), "-40isize");
    assert_eq!(Literal::u16_unsuffixed(65535).to_text(), "65535");
    assert_eq!(Literal::u32_suffixed(10).to_text(), "10u32");
    assert_eq!(Literal::u64_unsuffixed(100).to_text(), "100");
    assert_eq!(Literal::float_unsuffixed("1").to_text(), "1.0");
    assert_eq!(Literal::float_unsuffixed("1.5").to_text(), "1.5");
    assert_eq!(Literal::float_suffixed("2", "f32").to_text(), "2f32");
    assert!(Literal::u8_suffixed(1).subspan(0..1).is_none());
}

#[test]
fn literal_text_round_trip() {
    let made = vec![
        Literal::i32_suffixed(-3),
        Literal::u8_suffixed(200),
        Literal::string("it's"),
        Literal::character('\n'),
        Literal::byte_string(&[1, 2, 3]),
        Literal::float_unsuffixed("-2"),
    ];
    for lit in made {
        let text = lit.to_text();
        let (negative, rest) = Literal::split_sign(&text).unwrap();
        // a lexer that reads the whole of `rest` back as one literal
        let lexed = Literal::_new(rest.clone());
        let parsed = Literal::complete_parse(negative, &rest, Some(lexed)).unwrap();
        assert_eq!(parsed.to_text(), text);
    }
}

#[test]
fn literal_parse_failures() {
    assert_eq!(Literal::split_sign("-x").unwrap_err(), LexError::call_site());
    assert!(Literal::split_sign("-").is_err());
    assert_eq!(Literal::split_sign("-1u8").unwrap(), (true, "1u8".to_string()));
    assert_eq!(Literal::split_sign("'a'").unwrap(), (false, "'a'".to_string()));
    let partial = Literal::_new("1".to_string());
    assert!(Literal::complete_parse(false, "1 2", Some(partial)).is_err());
    assert!(Literal::complete_parse(false, "1", None).is_err());
    assert_eq!(LexError::call_site().span(), Span::call_site());
}

#[test]
fn node_types_order() {
    assert!(NodeType::File < NodeType::Literal);
    assert_eq!(NodeType::Group, NodeType::Group);
}

#[test]
fn clone_is_independent() {
    let group = Group::new(Delimiter::Brace, TokenStream::from_trees(vec![ident("x")]));
    let original = TokenStream::from_trees(vec![ident("f"), TokenTree::Group(group)]);
    let mut copy = original.clone();
    copy.push_token(ident("g"));
    assert_eq!(original.to_text(), "f { x }");
    assert_eq!(copy.to_text(), "f { x } g");
    let tree = original.as_trees()[1].clone();
    match tree {
        TokenTree::Group(g) => {
            let again = g.clone();
            assert_eq!(again.to_text(), "{ x }");
            assert_eq!(again.delimiter(), Delimiter::Brace);
        }
        _ => panic!("expected a group"),
    }
}
