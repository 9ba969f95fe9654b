//! Inputs the grammar rejects, and the diagnostics they get. A parse failure
//! is fatal: the transformer hands back an error and emits nothing.

use hierarchy::class::class_impl;
use hierarchy::classinfo::{ClassInfo, FnDecl, Param};
use hierarchy::parse::ParseError;
use hierarchy::token::{Delim, Tok, Vis};

fn id(s: &str) -> Tok {
    Tok::Ident(s.to_string())
}

fn p(c: char) -> Tok {
    Tok::Punct(c)
}

fn ob() -> Tok {
    Tok::Open(Delim::Brace)
}

fn cb() -> Tok {
    Tok::Close(Delim::Brace)
}

#[test]
fn empty_stream_needs_a_name() {
    assert_eq!(class_impl(&vec![]), Err(ParseError::ExpectedIdent));
    assert_eq!(class_impl(&vec![id("pub")]), Err(ParseError::ExpectedIdent));
}

#[test]
fn stray_identifier_where_extends_belongs() {
    // Dog woof {}
    let toks = vec![id("Dog"), id("woof"), ob(), cb()];
    assert_eq!(class_impl(&toks), Err(ParseError::ExpectedExtends));
}

#[test]
fn chain_must_continue_after_link_marker() {
    // Dog extends Animal < {}
    let toks = vec![id("Dog"), id("extends"), id("Animal"), p('<'), ob(), cb()];
    assert_eq!(class_impl(&toks), Err(ParseError::ExpectedIdent));
}

#[test]
fn unclosed_body_is_unbalanced() {
    let toks = vec![id("Dog"), ob()];
    assert_eq!(class_impl(&toks), Err(ParseError::UnbalancedDelimiters));
}

#[test]
fn mismatched_closer_is_unbalanced() {
    // Dog { fn f ( } )  -- a paren closed by a brace
    let toks = vec![
        id("Dog"),
        ob(),
        id("fn"),
        id("f"),
        Tok::Open(Delim::Paren),
        cb(),
        Tok::Close(Delim::Paren),
        cb(),
    ];
    assert_eq!(class_impl(&toks), Err(ParseError::UnbalancedDelimiters));
}

#[test]
fn tokens_after_the_body_are_rejected() {
    let toks = vec![id("Dog"), ob(), cb(), id("stray")];
    assert_eq!(class_impl(&toks), Err(ParseError::TrailingTokens));
}

#[test]
fn field_without_type_is_rejected() {
    // Dog { let x: ; }
    let toks = vec![id("Dog"), ob(), id("let"), id("x"), p(':'), p(';'), cb()];
    assert_eq!(class_impl(&toks), Err(ParseError::EmptyType));
}

#[test]
fn field_without_colon_is_rejected() {
    // Dog { let x i32; }
    let toks = vec![id("Dog"), ob(), id("let"), id("x"), id("i32"), p(';'), cb()];
    assert_eq!(class_impl(&toks), Err(ParseError::ExpectedColon));
}

#[test]
fn field_without_semicolon_is_rejected() {
    // Dog { let x: i32 }
    let toks = vec![id("Dog"), ob(), id("let"), id("x"), p(':'), id("i32"), cb()];
    assert_eq!(class_impl(&toks), Err(ParseError::ExpectedSemi));
}

#[test]
fn member_matching_no_pattern_is_rejected() {
    // Dog { pub speak ( ) { } }  -- `fn` missing
    let toks = vec![
        id("Dog"),
        ob(),
        id("pub"),
        id("speak"),
        Tok::Open(Delim::Paren),
        Tok::Close(Delim::Paren),
        ob(),
        cb(),
        cb(),
    ];
    assert_eq!(class_impl(&toks), Err(ParseError::ExpectedFn));
}

#[test]
fn method_without_return_type_after_arrow_is_rejected() {
    // Dog { fn f ( ) -> { } }
    let toks = vec![
        id("Dog"),
        ob(),
        id("fn"),
        id("f"),
        Tok::Open(Delim::Paren),
        Tok::Close(Delim::Paren),
        p('-'),
        p('>'),
        ob(),
        cb(),
        cb(),
    ];
    assert_eq!(class_impl(&toks), Err(ParseError::EmptyType));
}

#[test]
fn empty_parameter_chunk_is_rejected() {
    // Dog { fn f ( , ) { } }
    let toks = vec![
        id("Dog"),
        ob(),
        id("fn"),
        id("f"),
        Tok::Open(Delim::Paren),
        p(','),
        Tok::Close(Delim::Paren),
        ob(),
        cb(),
        cb(),
    ];
    assert_eq!(class_impl(&toks), Err(ParseError::MalformedParam));
}

#[test]
fn override_block_needs_a_name() {
    // Dog { override { } }
    let toks = vec![id("Dog"), ob(), id("override"), ob(), cb(), cb()];
    assert_eq!(class_impl(&toks), Err(ParseError::ExpectedIdent));
}

#[test]
fn trailing_comma_in_params_is_accepted() {
    // Dog { fn f ( n : u8 , ) { } }
    let toks = vec![
        id("Dog"),
        ob(),
        id("fn"),
        id("f"),
        Tok::Open(Delim::Paren),
        id("n"),
        p(':'),
        id("u8"),
        p(','),
        Tok::Close(Delim::Paren),
        ob(),
        cb(),
        cb(),
    ];
    let out = class_impl(&toks).unwrap();
    assert_eq!(out.inherent.methods[0].params.len(), 1);
    assert_eq!(
        out.inherent.methods[0].params[0],
        Param::Typed(vec![id("n"), p(':'), id("u8")]),
    );
}

#[test]
fn receiver_forms_are_recognized() {
    // &self, &mut self, mut self, self are receivers; n: u8 is not
    let recv = |toks: Vec<Tok>| {
        let mut all = vec![
            id("Dog"),
            ob(),
            id("fn"),
            id("f"),
            Tok::Open(Delim::Paren),
        ];
        all.extend(toks);
        all.extend(vec![Tok::Close(Delim::Paren), ob(), cb(), cb()]);
        let out = class_impl(&all).unwrap();
        out.inherent.methods.first().map(|f| f.is_static())
    };
    assert_eq!(recv(vec![p('&'), id("self")]), Some(false));
    assert_eq!(recv(vec![p('&'), id("mut"), id("self")]), Some(false));
    assert_eq!(recv(vec![id("mut"), id("self")]), Some(false));
    assert_eq!(recv(vec![id("self")]), Some(false));
    assert_eq!(recv(vec![id("n"), p(':'), id("u8")]), Some(true));
}

#[test]
fn is_static_looks_at_the_first_parameter() {
    let f = FnDecl {
        vis: Vis::Private,
        is_final: false,
        name: "f".to_string(),
        params: vec![],
        ret: vec![],
        body: vec![],
    };
    assert!(f.is_static());
    let g = FnDecl {
        params: vec![Param::Receiver(vec![p('&'), id("self")])],
        ..f
    };
    assert!(!g.is_static());
    let h = FnDecl {
        params: vec![
            Param::Typed(vec![id("n"), p(':'), id("u8")]),
            Param::Receiver(vec![id("self")]),
        ],
        ..g
    };
    assert!(h.is_static());
}

#[test]
fn parse_keeps_declaration_order() {
    // Mixed members end up in their own lists, each in source order.
    let toks = vec![
        id("Dog"),
        ob(),
        id("fn"),
        id("b"),
        Tok::Open(Delim::Paren),
        Tok::Close(Delim::Paren),
        ob(),
        cb(),
        id("let"),
        id("x"),
        p(':'),
        id("u8"),
        p(';'),
        id("fn"),
        id("a"),
        Tok::Open(Delim::Paren),
        Tok::Close(Delim::Paren),
        ob(),
        cb(),
        cb(),
    ];
    let info = ClassInfo::parse(&toks).unwrap();
    let fn_names: Vec<&str> = info.fn_decls.iter().map(|f| f.name.as_str()).collect();
    assert_eq!(fn_names, vec!["b", "a"]);
    assert_eq!(info.fields.len(), 1);
    assert_eq!(info.fields[0].name, "x");
}
