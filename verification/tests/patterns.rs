use pattern_syntax::ast::{
    Attribute, AttrStyle, Expr, ExprPath, FieldPat, Lit, Macro, MacroDelimiter, Member, Pat,
    PatBox, PatIdent, PatLit, PatMacro, PatOr, PatPath, PatRange, PatReference, PatRest, PatSlice,
    PatStruct, PatTuple, PatTupleStruct, PatType, PatWild, Path, PathArguments, PathSegment, QSelf,
    RangeLimits, UnOp,
};
use pattern_syntax::lex::{parse_str, tokenize};
use pattern_syntax::parsing::{field_pat, multi_pat, pat_lit_expr, pat_struct, pat_tuple_struct};
use pattern_syntax::token::TokenTree;

fn binding(name: &str) -> Pat {
    Pat::Ident(PatIdent {
        attrs: vec![],
        by_ref: false,
        mutability: false,
        ident: name.to_string(),
        subpat: None,
    })
}

fn segment(name: &str) -> PathSegment {
    PathSegment { ident: name.to_string(), arguments: PathArguments::Empty }
}

fn path(names: &[&str]) -> Path {
    Path { leading_colon: false, segments: names.iter().map(|n| segment(n)).collect() }
}

fn number(text: &str) -> Expr {
    Expr::Lit(Lit::Verbatim(text.to_string()))
}

fn toks(text: &str) -> Vec<TokenTree> {
    tokenize(text).unwrap()
}

#[test]
fn wildcard() {
    assert_eq!(parse_str("_").unwrap(), Pat::Wild(PatWild { attrs: vec![] }));
}

#[test]
fn bindings() {
    assert_eq!(parse_str("x").unwrap(), binding("x"));
    assert_eq!(parse_str("self").unwrap(), binding("self"));
    assert_eq!(
        parse_str("ref mut x @ _").unwrap(),
        Pat::Ident(PatIdent {
            attrs: vec![],
            by_ref: true,
            mutability: true,
            ident: "x".to_string(),
            subpat: Some(Box::new(Pat::Wild(PatWild { attrs: vec![] }))),
        })
    );
}

#[test]
fn box_and_reference() {
    assert_eq!(
        parse_str("box x").unwrap(),
        Pat::Box(PatBox { attrs: vec![], pat: Box::new(binding("x")) })
    );
    assert_eq!(
        parse_str("&mut x").unwrap(),
        Pat::Reference(PatReference {
            attrs: vec![],
            mutability: true,
            pat: Box::new(binding("x")),
        })
    );
    assert_eq!(
        parse_str("&&x").unwrap(),
        Pat::Reference(PatReference {
            attrs: vec![],
            mutability: false,
            pat: Box::new(Pat::Reference(PatReference {
                attrs: vec![],
                mutability: false,
                pat: Box::new(binding("x")),
            })),
        })
    );
}

#[test]
fn negative_literal_is_a_negation_of_a_literal() {
    assert_eq!(
        parse_str("-1").unwrap(),
        Pat::Lit(PatLit {
            attrs: vec![],
            expr: Box::new(Expr::Unary(UnOp::Neg, Box::new(number("1")))),
        })
    );
    let tokens = toks("-1");
    assert_eq!(tokens.len(), 2);
    assert_eq!(tokens[0], TokenTree::Punct('-', false));
    assert_eq!(tokens[1], TokenTree::Literal("1".to_string()));
}

#[test]
fn negative_low_bound_of_a_range() {
    assert_eq!(
        parse_str("-1..=5").unwrap(),
        Pat::Range(PatRange {
            attrs: vec![],
            lo: Box::new(Expr::Unary(UnOp::Neg, Box::new(number("1")))),
            limits: RangeLimits::Closed,
            hi: Box::new(number("5")),
        })
    );
}

#[test]
fn bool_literals() {
    assert_eq!(
        parse_str("true").unwrap(),
        Pat::Lit(PatLit { attrs: vec![], expr: Box::new(Expr::Lit(Lit::Bool(true))) })
    );
    assert_eq!(
        parse_str("false").unwrap(),
        Pat::Lit(PatLit { attrs: vec![], expr: Box::new(Expr::Lit(Lit::Bool(false))) })
    );
}

#[test]
fn range_limits_differ_only_in_the_limit_kind() {
    let half_open = parse_str("1..2").unwrap();
    let closed = parse_str("1..=2").unwrap();
    assert_eq!(
        half_open,
        Pat::Range(PatRange {
            attrs: vec![],
            lo: Box::new(number("1")),
            limits: RangeLimits::HalfOpen,
            hi: Box::new(number("2")),
        })
    );
    assert_eq!(
        closed,
        Pat::Range(PatRange {
            attrs: vec![],
            lo: Box::new(number("1")),
            limits: RangeLimits::Closed,
            hi: Box::new(number("2")),
        })
    );
    assert_eq!(
        half_open.tokens(),
        vec![
            TokenTree::Literal("1".to_string()),
            TokenTree::Punct('.', true),
            TokenTree::Punct('.', false),
            TokenTree::Literal("2".to_string()),
        ]
    );
    assert_eq!(
        closed.tokens(),
        vec![
            TokenTree::Literal("1".to_string()),
            TokenTree::Punct('.', true),
            TokenTree::Punct('.', true),
            TokenTree::Punct('=', false),
            TokenTree::Literal("2".to_string()),
        ]
    );
}

#[test]
fn range_with_path_bounds() {
    assert_eq!(
        parse_str("a..=B::C").unwrap(),
        Pat::Range(PatRange {
            attrs: vec![],
            lo: Box::new(Expr::Path(ExprPath { qself: None, path: path(&["a"]) })),
            limits: RangeLimits::Closed,
            hi: Box::new(Expr::Path(ExprPath { qself: None, path: path(&["B", "C"]) })),
        })
    );
}

#[test]
fn name_before_dots_is_a_binding_when_a_comma_or_the_end_follows() {
    let (pat, taken) = pattern_syntax::ast::Pat::parse(&toks("a..")).unwrap();
    assert_eq!(pat, binding("a"));
    assert_eq!(taken, 1);
    let (pat, taken) = pattern_syntax::ast::Pat::parse(&toks("a.., b")).unwrap();
    assert_eq!(pat, binding("a"));
    assert_eq!(taken, 1);
    let (pat, taken) = pattern_syntax::ast::Pat::parse(&toks("a..=")).unwrap();
    assert_eq!(pat, binding("a"));
    assert_eq!(taken, 1);
    let (pat, taken) = pattern_syntax::ast::Pat::parse(&toks("a..b, c")).unwrap();
    assert!(matches!(pat, Pat::Range(_)));
    assert_eq!(taken, 4);
}

#[test]
fn paths() {
    assert_eq!(
        parse_str("a::b").unwrap(),
        Pat::Path(PatPath { attrs: vec![], qself: None, path: path(&["a", "b"]) })
    );
    assert_eq!(
        parse_str("::a").unwrap(),
        Pat::Path(PatPath {
            attrs: vec![],
            qself: None,
            path: Path { leading_colon: true, segments: vec![segment("a")] },
        })
    );
    assert_eq!(
        parse_str("Self").unwrap(),
        Pat::Path(PatPath { attrs: vec![], qself: None, path: path(&["Self"]) })
    );
    assert_eq!(
        parse_str("Vec::<u8>::NEW").unwrap(),
        Pat::Path(PatPath {
            attrs: vec![],
            qself: None,
            path: Path {
                leading_colon: false,
                segments: vec![
                    PathSegment {
                        ident: "Vec".to_string(),
                        arguments: PathArguments::AngleBracketed(toks("u8")),
                    },
                    segment("NEW"),
                ],
            },
        })
    );
}

#[test]
fn qualified_path() {
    let inside = vec![
        TokenTree::Ident("T".to_string()),
        TokenTree::Ident("as".to_string()),
        TokenTree::Ident("Trait".to_string()),
        TokenTree::Punct('<', false),
        TokenTree::Ident("U".to_string()),
        TokenTree::Punct('>', true),
    ];
    assert_eq!(
        parse_str("<T as Trait<U>>::CONST").unwrap(),
        Pat::Path(PatPath {
            attrs: vec![],
            qself: Some(QSelf { tokens: inside }),
            path: Path { leading_colon: true, segments: vec![segment("CONST")] },
        })
    );
    assert_eq!(
        parse_str("<T>::CONST").unwrap(),
        Pat::Path(PatPath {
            attrs: vec![],
            qself: Some(QSelf { tokens: toks("T") }),
            path: Path { leading_colon: true, segments: vec![segment("CONST")] },
        })
    );
}

#[test]
fn macro_invocation() {
    assert_eq!(
        parse_str("a::m![x, 1]").unwrap(),
        Pat::Macro(PatMacro {
            attrs: vec![],
            mac: Macro {
                path: path(&["a", "m"]),
                delimiter: MacroDelimiter::Bracket,
                tokens: toks("x, 1"),
            },
        })
    );
    assert!(matches!(
        parse_str("m!(x)").unwrap(),
        Pat::Macro(PatMacro { mac: Macro { delimiter: MacroDelimiter::Paren, .. }, .. })
    ));
    assert!(matches!(
        parse_str("m!{x}").unwrap(),
        Pat::Macro(PatMacro { mac: Macro { delimiter: MacroDelimiter::Brace, .. }, .. })
    ));
}

#[test]
fn path_with_arguments_is_no_macro() {
    let (pat, taken) = Pat::parse(&toks("a::<T>!(x)")).unwrap();
    assert!(matches!(pat, Pat::Path(_)));
    assert_eq!(taken, 6);
    assert!(parse_str("a::<T>!(x)").is_err());
}

#[test]
fn one_element_tuple_with_and_without_comma() {
    let plain = parse_str("(a)").unwrap();
    let comma = parse_str("(a,)").unwrap();
    assert_eq!(
        plain,
        Pat::Tuple(PatTuple { attrs: vec![], elems: vec![binding("a")], trailing_comma: false })
    );
    assert_eq!(
        comma,
        Pat::Tuple(PatTuple { attrs: vec![], elems: vec![binding("a")], trailing_comma: true })
    );
}

#[test]
fn tuple_and_slice() {
    assert_eq!(
        parse_str("()").unwrap(),
        Pat::Tuple(PatTuple { attrs: vec![], elems: vec![], trailing_comma: false })
    );
    assert_eq!(
        parse_str("[a, ..]").unwrap(),
        Pat::Slice(PatSlice {
            attrs: vec![],
            elems: vec![binding("a"), Pat::Rest(PatRest { attrs: vec![] })],
            trailing_comma: false,
        })
    );
}

#[test]
fn tuple_struct_reuses_the_tuple() {
    assert_eq!(
        parse_str("Some(x,)").unwrap(),
        Pat::TupleStruct(PatTupleStruct {
            attrs: vec![],
            path: path(&["Some"]),
            pat: PatTuple { attrs: vec![], elems: vec![binding("x")], trailing_comma: true },
        })
    );
    let (pat, taken) = pat_tuple_struct(&toks("(a, b) rest"), path(&["T"])).unwrap();
    assert_eq!(taken, 1);
    assert_eq!(pat.path, path(&["T"]));
    assert_eq!(pat.pat.elems.len(), 2);
}

#[test]
fn struct_with_rest_after_a_comma() {
    assert_eq!(
        parse_str("Point { x, .. }").unwrap(),
        Pat::Struct(PatStruct {
            attrs: vec![],
            path: path(&["Point"]),
            fields: vec![FieldPat {
                attrs: vec![],
                member: Member::Named("x".to_string()),
                colon_token: false,
                pat: Box::new(binding("x")),
            }],
            trailing_comma: true,
            dot2_token: true,
        })
    );
}

#[test]
fn struct_with_rest_straight_after_a_field() {
    match parse_str("Point { x .. }").unwrap() {
        Pat::Struct(s) => {
            assert_eq!(s.fields.len(), 1);
            assert!(!s.trailing_comma);
            assert!(s.dot2_token);
        }
        _ => panic!("not a struct pattern"),
    }
}

#[test]
fn struct_with_rest_first_is_rejected() {
    assert!(parse_str("Point { .., x }").is_err());
    assert!(parse_str("Point { .. x }").is_err());
    assert!(parse_str("Point { x, .., }").is_err());
}

#[test]
fn struct_without_fields() {
    let (pat, taken) = pat_struct(&toks("{ .. }"), path(&["P"])).unwrap();
    assert_eq!(taken, 1);
    assert!(pat.fields.is_empty());
    assert!(pat.dot2_token);
    assert!(!pat.trailing_comma);
    let (pat, _) = pat_struct(&toks("{}"), path(&["P"])).unwrap();
    assert!(pat.fields.is_empty());
    assert!(!pat.dot2_token);
}

#[test]
fn short_field_differs_from_written_out_field_in_the_colon_only() {
    let (short, short_taken) = field_pat(&toks("x")).unwrap();
    let (long, long_taken) = field_pat(&toks("x: x")).unwrap();
    assert_eq!(short_taken, 1);
    assert_eq!(long_taken, 3);
    assert!(!short.colon_token);
    assert!(long.colon_token);
    assert_eq!(short.member, long.member);
    assert_eq!(short.pat, long.pat);
    assert_eq!(short.attrs, long.attrs);
    assert_eq!(FieldPat { colon_token: true, ..short }, long);
}

#[test]
fn short_field_prints_as_the_name_alone() {
    let short = parse_str("P { x }").unwrap();
    let long = parse_str("P { x: x }").unwrap();
    assert_ne!(short, long);
    assert_eq!(short.tokens(), toks("P { x }"));
    assert_eq!(long.tokens(), toks("P { x: x }"));
}

#[test]
fn short_fields_with_modifiers() {
    let (f, taken) = field_pat(&toks("box ref mut x, y")).unwrap();
    assert_eq!(taken, 4);
    assert_eq!(
        f,
        FieldPat {
            attrs: vec![],
            member: Member::Named("x".to_string()),
            colon_token: false,
            pat: Box::new(Pat::Box(PatBox {
                attrs: vec![],
                pat: Box::new(Pat::Ident(PatIdent {
                    attrs: vec![],
                    by_ref: true,
                    mutability: true,
                    ident: "x".to_string(),
                    subpat: None,
                })),
            })),
        }
    );
}

#[test]
fn positional_fields() {
    let (f, taken) = field_pat(&toks("0: _")).unwrap();
    assert_eq!(taken, 3);
    assert_eq!(f.member, Member::Unnamed(0));
    assert!(f.member.is_unnamed());
    assert!(f.colon_token);
    let (f, _) = field_pat(&toks("007: _")).unwrap();
    assert_eq!(f.member, Member::Unnamed(7));
    let (f, _) = field_pat(&toks("4294967295: _")).unwrap();
    assert_eq!(f.member, Member::Unnamed(4294967295));
    assert!(field_pat(&toks("4294967296: _")).is_err());
    assert!(field_pat(&toks("0x10: _")).is_err());
    assert!(field_pat(&toks("1u8: _")).is_err());
    assert!(!Member::Named("x".to_string()).is_unnamed());
}

#[test]
fn positional_field_prints_its_index_in_decimal() {
    let pat = parse_str("T { 007: a, 4294967295: b }").unwrap();
    assert_eq!(pat.tokens(), toks("T { 7: a, 4294967295: b }"));
}

#[test]
fn alternatives() {
    assert!(parse_str("|").is_err());
    match parse_str("a | b | c").unwrap() {
        Pat::Or(or) => {
            assert!(!or.leading_vert);
            assert_eq!(or.cases, vec![binding("a"), binding("b"), binding("c")]);
        }
        _ => panic!("not an or-pattern"),
    }
    match parse_str("| a | b").unwrap() {
        Pat::Or(or) => {
            assert!(or.leading_vert);
            assert_eq!(or.cases, vec![binding("a"), binding("b")]);
        }
        _ => panic!("not an or-pattern"),
    }
    assert_eq!(
        parse_str("| a").unwrap(),
        Pat::Or(PatOr { attrs: vec![], leading_vert: true, cases: vec![binding("a")] })
    );
    assert_eq!(parse_str("a").unwrap(), binding("a"));
}

#[test]
fn alternatives_stop_before_double_vert_and_vert_eq() {
    let (pat, taken) = multi_pat(&toks("a || b")).unwrap();
    assert_eq!(pat, binding("a"));
    assert_eq!(taken, 1);
    let (pat, taken) = multi_pat(&toks("a | b |= c")).unwrap();
    assert!(matches!(pat, Pat::Or(_)));
    assert_eq!(taken, 3);
}

#[test]
fn bound_is_a_literal_or_a_path() {
    let (e, taken) = pat_lit_expr(&toks("-a::B + 1")).unwrap();
    assert_eq!(taken, 5);
    assert_eq!(
        e,
        Expr::Unary(
            UnOp::Neg,
            Box::new(Expr::Path(ExprPath { qself: None, path: path(&["a", "B"]) }))
        )
    );
    assert!(pat_lit_expr(&toks("(1)")).is_err());
    assert!(pat_lit_expr(&toks("- -1")).is_err());
    assert!(parse_str("1..=(2)").is_err());
}

#[test]
fn attributes_are_printed_before_the_pattern() {
    let pat = Pat::Wild(PatWild {
        attrs: vec![
            Attribute { style: AttrStyle::Outer, tokens: toks("cfg(test)") },
            Attribute { style: AttrStyle::Inner, tokens: toks("hidden") },
            Attribute { style: AttrStyle::Outer, tokens: toks("allow(unused)") },
        ],
    });
    assert_eq!(pat.tokens(), toks("#[cfg(test)] #[allow(unused)] _"));
}

#[test]
fn type_ascription_and_verbatim_are_printed() {
    let typed = Pat::Type(PatType {
        attrs: vec![],
        pat: Box::new(binding("x")),
        ty: toks("Vec<u8>"),
    });
    assert_eq!(typed.tokens(), toks("x: Vec<u8>"));
    let verbatim = Pat::Verbatim(toks("anything (at all)"));
    assert_eq!(verbatim.tokens(), toks("anything (at all)"));
}

#[test]
fn or_pattern_built_by_hand_is_printed_with_separators_between_cases() {
    let pat = Pat::Or(PatOr {
        attrs: vec![],
        leading_vert: false,
        cases: vec![binding("a"), binding("b"), binding("c")],
    });
    assert_eq!(pat.tokens(), toks("a | b | c"));
    let pat = Pat::Or(PatOr { attrs: vec![], leading_vert: true, cases: vec![binding("a")] });
    assert_eq!(pat.tokens(), toks("| a"));
}

#[test]
fn struct_built_by_hand_gets_a_comma_before_the_dots() {
    let pat = Pat::Struct(PatStruct {
        attrs: vec![],
        path: path(&["P"]),
        fields: vec![FieldPat {
            attrs: vec![],
            member: Member::Named("x".to_string()),
            colon_token: true,
            pat: Box::new(binding("y")),
        }],
        trailing_comma: false,
        dot2_token: true,
    });
    assert_eq!(pat.tokens(), toks("P { x: y, .. }"));
}
