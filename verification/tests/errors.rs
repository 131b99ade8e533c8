use pattern_syntax::ast::{Pat, Path, PathArguments, PathSegment};
use pattern_syntax::error::{Expected, Found, ParseError};
use pattern_syntax::lex::{parse_str, tokenize, Error};
use pattern_syntax::parsing::{
    macro_body, pat_box, pat_ident, pat_lit_or_range, pat_range, pat_reference, pat_rest,
    pat_slice, pat_struct, pat_tuple, pat_wild, parse_pattern, range_limits,
};
use pattern_syntax::token::{Delimiter, TokenTree};

fn toks(text: &str) -> Vec<TokenTree> {
    tokenize(text).unwrap()
}

fn syntax_error(text: &str) -> ParseError {
    match parse_str(text) {
        Err(Error::Syntax(e)) => e,
        other => panic!("{:?}", other),
    }
}

fn some_path() -> Path {
    Path {
        leading_colon: false,
        segments: vec![PathSegment { ident: "P".to_string(), arguments: PathArguments::Empty }],
    }
}

#[test]
fn text_that_is_no_token_sequence() {
    assert_eq!(parse_str("(a"), Err(Error::Lex));
    assert_eq!(parse_str("a)"), Err(Error::Lex));
    assert_eq!(parse_str("\"open"), Err(Error::Lex));
    assert!(tokenize("(a").is_none());
}

#[test]
fn empty_input() {
    assert_eq!(
        syntax_error(""),
        ParseError { expected: Expected::Pattern, found: Found::End, trail: vec![0] }
    );
}

#[test]
fn lone_vert() {
    assert_eq!(
        syntax_error("|"),
        ParseError { expected: Expected::Pattern, found: Found::End, trail: vec![0] }
    );
}

#[test]
fn unrecognized_pattern_start() {
    assert_eq!(
        syntax_error("+ a"),
        ParseError { expected: Expected::Pattern, found: Found::Punct('+'), trail: vec![2] }
    );
    assert_eq!(
        syntax_error("{ a }"),
        ParseError {
            expected: Expected::Pattern,
            found: Found::Group(Delimiter::Brace),
            trail: vec![1],
        }
    );
    assert_eq!(
        syntax_error("..."),
        ParseError { expected: Expected::Pattern, found: Found::Punct('.'), trail: vec![3] }
    );
    assert_eq!(
        syntax_error("fn"),
        ParseError { expected: Expected::Pattern, found: Found::Ident, trail: vec![1] }
    );
}

#[test]
fn reserved_word_that_names_nothing() {
    assert_eq!(
        syntax_error("extern::a"),
        ParseError { expected: Expected::Pattern, found: Found::Ident, trail: vec![4] }
    );
    assert_eq!(
        syntax_error("a::extern"),
        ParseError { expected: Expected::Ident, found: Found::Ident, trail: vec![1] }
    );
}

#[test]
fn trailing_tokens() {
    assert_eq!(
        syntax_error("a b"),
        ParseError { expected: Expected::End, found: Found::Ident, trail: vec![1] }
    );
    assert_eq!(
        syntax_error("Point { .., x }"),
        ParseError { expected: Expected::End, found: Found::Punct(','), trail: vec![2, 1] }
    );
}

#[test]
fn missing_comma_inside_nested_groups() {
    assert_eq!(
        syntax_error("(a, [b c], d)"),
        ParseError { expected: Expected::Comma, found: Found::Ident, trail: vec![1, 3, 1] }
    );
}

#[test]
fn missing_name() {
    assert_eq!(
        syntax_error("ref 1"),
        ParseError { expected: Expected::Ident, found: Found::Literal, trail: vec![1] }
    );
    assert_eq!(
        syntax_error("a::1"),
        ParseError { expected: Expected::Ident, found: Found::Literal, trail: vec![1] }
    );
    assert_eq!(
        syntax_error("a::fn"),
        ParseError { expected: Expected::Ident, found: Found::Ident, trail: vec![1] }
    );
    assert_eq!(
        pat_ident(&toks("mut")).unwrap_err(),
        ParseError { expected: Expected::Ident, found: Found::End, trail: vec![0] }
    );
}

#[test]
fn missing_member_and_colon() {
    assert_eq!(
        syntax_error("P { + }"),
        ParseError { expected: Expected::Member, found: Found::Punct('+'), trail: vec![1, 1] }
    );
    assert_eq!(
        syntax_error("P { 0 x }"),
        ParseError { expected: Expected::Colon, found: Found::Ident, trail: vec![1, 1] }
    );
    assert_eq!(
        syntax_error("P { ref 0 }"),
        ParseError { expected: Expected::Colon, found: Found::End, trail: vec![0, 1] }
    );
}

#[test]
fn qualified_self_errors() {
    assert_eq!(
        syntax_error("<T"),
        ParseError { expected: Expected::Gt, found: Found::End, trail: vec![0] }
    );
    assert_eq!(
        syntax_error("<>::X"),
        ParseError { expected: Expected::Type, found: Found::Punct('>'), trail: vec![4] }
    );
    assert_eq!(
        syntax_error("<T> x"),
        ParseError { expected: Expected::PathSep, found: Found::Ident, trail: vec![1] }
    );
    assert_eq!(
        syntax_error("a::<T"),
        ParseError { expected: Expected::Gt, found: Found::End, trail: vec![0] }
    );
}

#[test]
fn bound_errors() {
    assert_eq!(
        syntax_error("1..=+"),
        ParseError { expected: Expected::LiteralOrPath, found: Found::Punct('+'), trail: vec![1] }
    );
    assert_eq!(
        syntax_error("-"),
        ParseError { expected: Expected::LiteralOrPath, found: Found::End, trail: vec![0] }
    );
    assert_eq!(
        pat_range(&toks("x"), None, some_path()).unwrap_err(),
        ParseError { expected: Expected::RangeLimits, found: Found::Ident, trail: vec![1] }
    );
    assert_eq!(
        range_limits(&toks(". .")).unwrap_err(),
        ParseError { expected: Expected::RangeLimits, found: Found::Punct('.'), trail: vec![2] }
    );
    assert!(pat_lit_or_range(&toks("1 ..= 2")).is_ok());
}

#[test]
fn macro_without_body() {
    assert_eq!(
        syntax_error("m! x"),
        ParseError { expected: Expected::Delimiter, found: Found::Ident, trail: vec![1] }
    );
    assert_eq!(
        macro_body(&[TokenTree::Group(Delimiter::Invisible, vec![])]).unwrap_err(),
        ParseError {
            expected: Expected::Delimiter,
            found: Found::Group(Delimiter::Invisible),
            trail: vec![1],
        }
    );
}

#[test]
fn rules_called_on_the_wrong_token() {
    let x = toks("x");
    assert_eq!(pat_wild(&x).unwrap_err().expected, Expected::Underscore);
    assert_eq!(pat_box(&x).unwrap_err().expected, Expected::BoxWord);
    assert_eq!(pat_reference(&x).unwrap_err().expected, Expected::And);
    assert_eq!(pat_rest(&x).unwrap_err().expected, Expected::DotDot);
    assert_eq!(pat_tuple(&x).unwrap_err().expected, Expected::Paren);
    assert_eq!(pat_slice(&x).unwrap_err().expected, Expected::Bracket);
    assert_eq!(pat_struct(&x, some_path()).unwrap_err().expected, Expected::Brace);
    assert_eq!(pat_tuple(&toks("[a]")).unwrap_err().found, Found::Group(Delimiter::Bracket));
}

#[test]
fn error_inside_a_sub_pattern_keeps_the_count_of_its_own_sequence() {
    assert_eq!(
        syntax_error("box + x"),
        ParseError { expected: Expected::Pattern, found: Found::Punct('+'), trail: vec![2] }
    );
    assert_eq!(
        syntax_error("x @ ( + )"),
        ParseError { expected: Expected::Pattern, found: Found::Punct('+'), trail: vec![1, 1] }
    );
}

#[test]
fn invisible_group_is_no_pattern() {
    let tokens = vec![TokenTree::Group(Delimiter::Invisible, toks("a"))];
    assert_eq!(
        parse_pattern(&tokens).unwrap_err(),
        ParseError {
            expected: Expected::Pattern,
            found: Found::Group(Delimiter::Invisible),
            trail: vec![1],
        }
    );
    let _ = Pat::parse(&tokens).unwrap_err();
}
