use pattern_syntax::ast::{FieldPat, Pat, Path};
use pattern_syntax::eq::{attrs_same, pats_same, tree_same, trees_same};
use pattern_syntax::lex::{parse_str, tokenize};
use pattern_syntax::parsing::field_pat;
use pattern_syntax::path::path;
use pattern_syntax::token::TokenTree;

fn toks(text: &str) -> Vec<TokenTree> {
    tokenize(text).unwrap()
}

fn pat(text: &str) -> Pat {
    parse_str(text).unwrap()
}

fn field(text: &str) -> FieldPat {
    field_pat(&toks(text)).unwrap().0
}

fn a_path(text: &str) -> Path {
    path(&toks(text)).unwrap().0
}

#[test]
fn equal_patterns() {
    let texts = [
        "_",
        "x",
        "ref mut x @ (a, b)",
        "-1..=A::B",
        "<T as U>::C",
        "m![a b c]",
        "&mut [a, .., b]",
        "S::<T> { a, b: (c, d), ref e, 0: _, .. }",
        "T(a, box b,)",
        "a | b | c",
        "..",
    ];
    for (i, a) in texts.iter().enumerate() {
        for (j, b) in texts.iter().enumerate() {
            assert_eq!(pat(a) == pat(b), i == j, "{} and {}", a, b);
            assert_eq!(pat(a).same(&pat(b)), i == j, "{} and {}", a, b);
        }
    }
}

#[test]
fn patterns_that_differ_in_one_place() {
    assert_ne!(pat("x"), pat("y"));
    assert_ne!(pat("x"), pat("mut x"));
    assert_ne!(pat("x"), pat("ref x"));
    assert_ne!(pat("x @ _"), pat("x"));
    assert_ne!(pat("&x"), pat("&mut x"));
    assert_ne!(pat("1..2"), pat("1..=2"));
    assert_ne!(pat("1..2"), pat("1..3"));
    assert_ne!(pat("1..2"), pat("0..2"));
    assert_ne!(pat("1"), pat("-1"));
    assert_ne!(pat("true"), pat("false"));
    assert_ne!(pat("(a)"), pat("(a,)"));
    assert_ne!(pat("(a)"), pat("[a]"));
    assert_ne!(pat("(a, b)"), pat("(a)"));
    assert_ne!(pat("(a, b)"), pat("(b, a)"));
    assert_ne!(pat("a::b"), pat("::a::b"));
    assert_ne!(pat("a::b"), pat("a::c"));
    assert_ne!(pat("a::<T>::b"), pat("a::<U>::b"));
    assert_ne!(pat("<T>::b"), pat("<U>::b"));
    assert_ne!(pat("m!(a)"), pat("m![a]"));
    assert_ne!(pat("m!(a)"), pat("m!(b)"));
    assert_ne!(pat("S { a }"), pat("S { a: a }"));
    assert_ne!(pat("S { a }"), pat("S { a, }"));
    assert_ne!(pat("S { a, }"), pat("S { a, .. }"));
    assert_ne!(pat("S { 0: a }"), pat("S { 1: a }"));
    assert_ne!(pat("S(a)"), pat("T(a)"));
    assert_ne!(pat("a | b"), pat("| a | b"));
    assert_ne!(pat("a | b"), pat("a | c"));
}

#[test]
fn equal_parts() {
    assert!(field("x: (a, b)").same(&field("x: (a, b)")));
    assert!(!field("x: (a, b)").same(&field("y: (a, b)")));
    assert!(!field("x").same(&field("x: x")));
    assert!(a_path("a::b::<T>").same(&a_path("a::b::<T>")));
    assert!(!a_path("a::b::<T>").same(&a_path("a::b")));
    assert!(trees_same(&toks("a (b [c]) 1"), &toks("a (b [c]) 1")));
    assert!(!trees_same(&toks("a (b [c]) 1"), &toks("a (b [d]) 1")));
    assert!(!trees_same(&toks("a (b) 1"), &toks("a [b] 1")));
    assert!(!trees_same(&toks("a"), &toks("a a")));
    assert!(!tree_same(&TokenTree::Punct('.', true), &TokenTree::Punct('.', false)));
    assert!(!tree_same(&TokenTree::Ident("a".to_string()), &TokenTree::Literal("a".to_string())));
    assert!(attrs_same(&vec![], &vec![]));
    assert!(pats_same(&vec![pat("a"), pat("b")], &vec![pat("a"), pat("b")]));
    assert!(!pats_same(&vec![pat("a"), pat("b")], &vec![pat("a")]));
}
