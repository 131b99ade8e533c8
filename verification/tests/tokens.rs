use pattern_syntax::index::{index_text, parse_index};
use pattern_syntax::lex::tokenize;
use pattern_syntax::path::{angle_end, path, qpath};
use pattern_syntax::token::{
    advance, clone_tree, clone_trees, keyword, path_keyword, peek_bang, peek_colon2, peek_dot2,
    peek_dot2_eq, peek_dot3, peek_group, peek_lit, peek_path_start, peek_plain_ident,
    peek_punct, peek_vert, peek_wild, peek_word, Delimiter, TokenTree,
};

fn toks(text: &str) -> Vec<TokenTree> {
    tokenize(text).unwrap()
}

#[test]
fn lexer_gives_words_punctuation_literals_and_groups() {
    assert_eq!(
        toks("a ..= (1, [b]) _"),
        vec![
            TokenTree::Ident("a".to_string()),
            TokenTree::Punct('.', true),
            TokenTree::Punct('.', true),
            TokenTree::Punct('=', false),
            TokenTree::Group(
                Delimiter::Parenthesis,
                vec![
                    TokenTree::Literal("1".to_string()),
                    TokenTree::Punct(',', false),
                    TokenTree::Group(Delimiter::Bracket, vec![TokenTree::Ident("b".to_string())]),
                ]
            ),
            TokenTree::Ident("_".to_string()),
        ]
    );
    assert_eq!(toks(""), vec![]);
    assert_eq!(toks("{}"), vec![TokenTree::Group(Delimiter::Brace, vec![])]);
}

#[test]
fn reserved_words() {
    for w in ["_", "box", "ref", "mut", "self", "Self", "super", "crate", "extern", "true",
        "false", "fn", "as", "yield", "where", "abstract"]
    {
        assert!(keyword(w), "{}", w);
    }
    for w in ["x", "boxx", "Box", "selfish", "", "r#fn", "union", "async", "dyn"] {
        assert!(!keyword(w), "{}", w);
    }
    for w in ["super", "self", "crate"] {
        assert!(path_keyword(w), "{}", w);
    }
    assert!(!path_keyword("extern"));
    assert!(!path_keyword("Self"));
    assert!(!path_keyword("x"));
}

#[test]
fn peeking() {
    let t = toks("a :: b .. c ..= d ... e ! f != g | h || i |= j : k");
    assert!(peek_plain_ident(&t, 0));
    assert!(peek_word(&t, 0, "a"));
    assert!(!peek_word(&t, 0, "b"));
    assert!(peek_colon2(&t, 1));
    assert!(!peek_colon2(&t, 2));
    assert!(peek_dot2(&t, 4));
    assert!(!peek_dot2_eq(&t, 4));
    assert!(!peek_dot3(&t, 4));
    assert!(peek_dot2(&t, 7));
    assert!(peek_dot2_eq(&t, 7));
    assert!(peek_dot2(&t, 11));
    assert!(peek_dot3(&t, 11));
    assert!(peek_bang(&t, 15));
    assert!(peek_punct(&t, 17, '!'));
    assert!(!peek_bang(&t, 17));
    assert!(peek_vert(&t, 20));
    assert!(!peek_vert(&t, 22));
    assert!(!peek_vert(&t, 25));
    assert!(peek_punct(&t, 28, ':'));
    assert!(!peek_colon2(&t, 28));
    assert!(!peek_word(&t, 100, "a"));
    assert!(!peek_punct(&t, usize::MAX, ':'));
}

#[test]
fn peeking_words_literals_and_groups() {
    let t = toks("_ box 1 true (x) [y] {z} < self");
    assert!(peek_wild(&t, 0));
    assert!(!peek_plain_ident(&t, 0));
    assert!(!peek_plain_ident(&t, 1));
    assert!(peek_lit(&t, 2));
    assert!(peek_lit(&t, 3));
    assert!(!peek_lit(&t, 1));
    assert!(peek_group(&t, 4, Delimiter::Parenthesis));
    assert!(!peek_group(&t, 4, Delimiter::Bracket));
    assert!(peek_group(&t, 5, Delimiter::Bracket));
    assert!(peek_group(&t, 6, Delimiter::Brace));
    assert!(peek_path_start(&t, 7));
    assert!(peek_path_start(&t, 8));
    assert!(!peek_path_start(&t, 1));
    assert!(peek_wild(&[TokenTree::Punct('_', false)], 0));
}

#[test]
fn advancing_and_copying() {
    let t = toks("a (b c) d");
    assert_eq!(advance(&t, 1), &t[1..]);
    assert_eq!(advance(&t, 3), &t[3..]);
    assert_eq!(clone_trees(&t), t);
    assert_eq!(clone_tree(&t[1]), t[1]);
    assert_eq!(t[1].clone(), t[1]);
}

#[test]
fn closing_angle_bracket() {
    assert_eq!(angle_end(&toks("< a < b > c > d >"), 1), Some(5));
    assert_eq!(angle_end(&toks("< >"), 1), Some(0));
    assert_eq!(angle_end(&toks("< a (>) "), 1), None);
    assert_eq!(angle_end(&toks("< a >> b"), 1), Some(1));
    assert_eq!(angle_end(&toks("< < a >"), 1), None);
}

#[test]
fn arrow_closes_no_angle_bracket() {
    assert_eq!(angle_end(&toks("< fn(a) -> b > c"), 1), Some(5));
    assert_eq!(angle_end(&toks("< a - > b"), 1), Some(2));
    assert_eq!(angle_end(&toks("< a -> b"), 1), None);
    assert_eq!(angle_end(&toks("< F<fn() -> G<u8>> > x"), 1), Some(11));
}

#[test]
fn paths_are_read_up_to_the_last_segment() {
    let (p, taken) = path(&toks("::a::b::<T, U>::c d")).unwrap();
    assert!(p.leading_colon);
    assert_eq!(p.segments.len(), 3);
    assert_eq!(taken, 16);
    let ((q, p), taken) = qpath(&toks("<A as B>::c::d.")).unwrap();
    assert_eq!(q.unwrap().tokens, toks("A as B"));
    assert_eq!(p.segments.len(), 2);
    assert!(p.leading_colon);
    assert_eq!(taken, 11);
    assert!(path(&toks("self::<T>")).is_err());
}

#[test]
fn indices() {
    assert_eq!(parse_index("0"), Some(0));
    assert_eq!(parse_index("42"), Some(42));
    assert_eq!(parse_index("0042"), Some(42));
    assert_eq!(parse_index("4294967295"), Some(4294967295));
    assert_eq!(parse_index("4294967296"), None);
    assert_eq!(parse_index("99999999999999999999999999"), None);
    assert_eq!(parse_index(""), None);
    assert_eq!(parse_index("1a"), None);
    assert_eq!(parse_index("-1"), None);
    assert_eq!(parse_index("１"), None);
    assert_eq!(index_text(0), "0");
    assert_eq!(index_text(7), "7");
    assert_eq!(index_text(10), "10");
    assert_eq!(index_text(4294967295), "4294967295");
}
